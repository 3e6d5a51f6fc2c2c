//! What a client hears while its request is being worked on.
use vstd::prelude::*;
use vstd::string::*;

use crate::text::decimal_text;

verus! {

/// What the main process is at.
#[derive(Debug, Clone, Copy, PartialEq, Eq, Structural)]
pub enum Progress {
    SavingState,
    /// an order goes to all workers, or to the one that is named
    SendingOrder(Option<u32>),
    LaunchingWorker,
    UpgradingMain,
    UpgradingWorker,
    StoppingWorker,
    Reloading,
    AskingForStatus,
    Asking,
}

impl Progress {
    /// The words for it.
    pub open spec fn text(self) -> Seq<char> {
        match self {
            Progress::SavingState => "Saving state to file"@,
            Progress::SendingOrder(Some(id)) => "Sending the order to worker "@
                + crate::text::decimal(id as nat),
            Progress::SendingOrder(None) => "Sending the order to all workers"@,
            Progress::LaunchingWorker => "Sending configuration orders to the new worker..."@,
            Progress::UpgradingMain => "The proxy is processing the upgrade command."@,
            Progress::UpgradingWorker => "Sending configuration orders to the worker"@,
            Progress::StoppingWorker => "Processing softstop responses from the workers..."@,
            Progress::Reloading => "Reloading configuration, sending config messages to workers..."@,
            Progress::AskingForStatus => "Sending status requests to workers..."@,
            Progress::Asking => "Query order was sent to the workers..."@,
        }
    }

    /// The words for it.
    pub fn to_text(&self) -> (r: String)
        ensures
            r@ == self.text(),
    {
        match self {
            Progress::SavingState => "Saving state to file".to_owned(),
            Progress::SendingOrder(Some(id)) => {
                let mut text = "Sending the order to worker ".to_owned();
                text.append(decimal_text(*id as u64).as_str());
                text
            },
            Progress::SendingOrder(None) => "Sending the order to all workers".to_owned(),
            Progress::LaunchingWorker =>
            "Sending configuration orders to the new worker...".to_owned(),
            Progress::UpgradingMain => "The proxy is processing the upgrade command.".to_owned(),
            Progress::UpgradingWorker => "Sending configuration orders to the worker".to_owned(),
            Progress::StoppingWorker =>
            "Processing softstop responses from the workers...".to_owned(),
            Progress::Reloading =>
            "Reloading configuration, sending config messages to workers...".to_owned(),
            Progress::AskingForStatus => "Sending status requests to workers...".to_owned(),
            Progress::Asking => "Query order was sent to the workers...".to_owned(),
        }
    }
}

} // verus!
