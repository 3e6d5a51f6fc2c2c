//! The file that a state is saved to: one message after the other, each of which ends in a line break
//! and a zero byte.
use vstd::prelude::*;
use vstd::string::*;

use crate::proxy::{ProxyRequestOrder, ProxyRequestOrderModel};
use crate::text::decimal_text;

use super::orders::with_context;
use super::route::Outcome;
use super::server::CommandServer;
use super::types::{
    AdvancementModel, CommandRequest, CommandRequestModel, CommandRequestOrder,
    CommandRequestOrderModel, Success, SuccessModel, PROTOCOL_VERSION,
};

verus! {

/// The message in place `i` of a saved state.
pub open spec fn saved_message(order: ProxyRequestOrderModel, i: int) -> CommandRequestModel {
    CommandRequestModel {
        id: "SAVE-"@ + crate::text::decimal(i as nat),
        version: PROTOCOL_VERSION,
        worker_id: None,
        order: CommandRequestOrderModel::Proxy(order),
    }
}

/// What came of writing a state to a file.
#[derive(Debug)]
pub enum Written {
    /// the file could not be made, in words
    NotOpened(String),
    /// this message could not be written, in words
    NoMessage(String, String),
    /// the end of a message could not be written, in words
    NoLineBreak(String),
    /// the file could not be synchronised, in words
    NotSynced(String),
    /// so many messages were written
    Messages(usize),
}

/// What is said of a state that could not be written to its file.
pub open spec fn write_failure(written: Written) -> Option<Seq<char>> {
    let step = match written {
        Written::NoMessage(message, cause) => Some(
            super::orders::in_context(
                "Could not add this instruction line to the saved state file: "@ + message@,
                cause@,
            ),
        ),
        Written::NoLineBreak(cause) => Some(
            super::orders::in_context("Could not add new line to the saved state file"@, cause@),
        ),
        Written::NotSynced(cause) => Some(
            super::orders::in_context("Failed to sync the saved state file"@, cause@),
        ),
        _ => None,
    };
    match step {
        Some(text) => Some(
            super::orders::in_context("Could not write the state onto the state file"@, text),
        ),
        None => None,
    }
}

/// What is said of a state that could not be written to its file.
pub(crate) fn failure_of(written: &Written) -> (r: Option<String>)
    ensures
        r.deep_view() == write_failure(*written),
{
    let text = match written {
        Written::NoMessage(message, cause) => {
            let mut context =
                "Could not add this instruction line to the saved state file: ".to_owned();
            context.append(message.as_str());
            with_context(context.as_str(), cause.as_str())
        },
        Written::NoLineBreak(cause) => with_context(
            "Could not add new line to the saved state file",
            cause.as_str(),
        ),
        Written::NotSynced(cause) => with_context(
            "Failed to sync the saved state file",
            cause.as_str(),
        ),
        _ => {
            return None;
        },
    };
    Some(with_context("Could not write the state onto the state file", text.as_str()))
}

impl CommandServer {
    /// The messages of a saved state: one for each of the orders that lead to it.
    pub fn save_state_to_file(&self, orders: &Vec<ProxyRequestOrder>) -> (r: Vec<CommandRequest>)
        ensures
            r.deep_view() == Seq::new(
                orders@.len(),
                |i: int| saved_message(orders.deep_view()[i], i),
            ),
    {
        let ghost all = orders.deep_view();
        let mut r: Vec<CommandRequest> = Vec::new();
        let mut i: usize = 0;
        while i < orders.len()
            invariant
                i <= orders.len(),
                all == orders.deep_view(),
                r.len() == i,
                forall|k: int|
                    0 <= k < i ==> (#[trigger] r@[k]).deep_view() == saved_message(all[k], k),
            decreases orders.len() - i,
        {
            let mut id = "SAVE-".to_owned();
            id.append(decimal_text(i as u64).as_str());
            let message = CommandRequest {
                id,
                version: PROTOCOL_VERSION,
                worker_id: None,
                order: CommandRequestOrder::Proxy(Box::new(orders[i].clone())),
            };
            proof {
                assert(all[i as int] == orders@[i as int].deep_view());
            }
            r.push(message);
            i = i + 1;
        }
        proof {
            assert(r.deep_view() =~= Seq::new(all.len(), |i: int| saved_message(all[i], i)));
        }
        r
    }

    /// What is said of a state that was to be saved at `path`.
    pub fn save_state(&self, path: &str, written: Written) -> (r: Outcome)
        ensures
            super::route::told_at_once(r) == Some(
                match written {
                    Written::NotOpened(cause) => AdvancementModel::Error(
                        super::orders::in_context("could not open file at path: "@ + path@, cause@),
                    ),
                    Written::Messages(n) => AdvancementModel::Done(
                        SuccessModel::SaveState(n, path@),
                    ),
                    _ => AdvancementModel::Error(
                        super::orders::in_context(
                            "failed writing state to file"@,
                            write_failure(written)->0,
                        ),
                    ),
                },
            ),
    {
        if let Some(text) = failure_of(&written) {
            return Outcome::Failed(with_context("failed writing state to file", text.as_str()));
        }
        match written {
            Written::Messages(n) => Outcome::Done(Success::SaveState(n, path.to_owned())),
            Written::NotOpened(cause) => {
                let mut context = "could not open file at path: ".to_owned();
                context.append(path);
                Outcome::Failed(with_context(context.as_str(), cause.as_str()))
            },
            _ => Outcome::Later,
        }
    }
}

/// Whether the file is synchronised after the message in place `i`: now and then, so that a long
/// state is on the disk before it is complete.
pub fn sync_after(i: usize) -> (r: bool)
    ensures
        r == (i % 1000 == 0),
{
    i % 1000 == 0
}

/// A message as it stands in the file.
pub open spec fn framed(message: Seq<u8>) -> Seq<u8> {
    message + seq![10u8, 0u8]
}

/// A message as it stands in the file.
pub fn frame(message: &Vec<u8>) -> (r: Vec<u8>)
    ensures
        r@ == framed(message@),
{
    let mut r = message.clone();
    r.push(10);
    r.push(0);
    proof {
        assert(r@ =~= framed(message@));
    }
    r
}

/// All messages as they stand in the file.
pub open spec fn file_of(messages: Seq<Seq<u8>>) -> Seq<u8>
    decreases messages.len(),
{
    if messages.len() == 0 {
        Seq::empty()
    } else {
        framed(messages[0]) + file_of(messages.drop_first())
    }
}

/// The place of the first zero byte, or the length of the data.
pub open spec fn zero_in(data: Seq<u8>) -> nat
    decreases data.len(),
{
    if data.len() == 0 || data[0] == 0 {
        0
    } else {
        1 + zero_in(data.drop_first())
    }
}

/// What stands in front of each of the zero bytes. Data behind the last one is not complete.
pub open spec fn frames(data: Seq<u8>) -> Seq<Seq<u8>>
    decreases data.len(),
{
    let n = zero_in(data);
    if n >= data.len() {
        Seq::empty()
    } else {
        seq![data.take(n as int)] + frames(data.skip(n as int + 1))
    }
}

proof fn lemma_zero_in(data: Seq<u8>, n: nat)
    requires
        n <= data.len(),
        forall|i: int| 0 <= i < n ==> data[i] != 0,
        n < data.len() ==> data[n as int] == 0,
    ensures
        zero_in(data) == n,
    decreases n,
{
    if n > 0 {
        let rest = data.drop_first();
        assert forall|i: int| 0 <= i < n - 1 implies rest[i] != 0 by {
            assert(rest[i] == data[i + 1]);
        }
        lemma_zero_in(rest, (n - 1) as nat);
    }
}

/// The complete messages in `data`.
pub fn split_frames(data: &Vec<u8>) -> (r: Vec<Vec<u8>>)
    ensures
        r.deep_view() == frames(data@),
{
    let mut r: Vec<Vec<u8>> = Vec::new();
    let mut current: Vec<u8> = Vec::new();
    let mut from: usize = 0;
    let mut i: usize = 0;
    proof {
        assert(data@.skip(0) =~= data@);
        assert(r.deep_view() + frames(data@) =~= frames(data@));
        assert(current@ =~= data@.subrange(0, 0));
    }
    while i < data.len()
        invariant
            from <= i <= data.len(),
            current@ == data@.subrange(from as int, i as int),
            forall|k: int| from <= k < i ==> data@[k] != 0,
            r.deep_view() + frames(data@.skip(from as int)) == frames(data@),
        decreases data.len() - i,
    {
        let byte = data[i];
        if byte == 0 {
            let ghost before = r.deep_view();
            let ghost rest = data@.skip(from as int);
            proof {
                let n = (i - from) as nat;
                assert forall|k: int| 0 <= k < n implies rest[k] != 0 by {
                    assert(rest[k] == data@[from + k]);
                }
                lemma_zero_in(rest, n);
                assert(rest.take(n as int) =~= current@);
                assert(rest.skip(n as int + 1) =~= data@.skip(i + 1));
            }
            let ghost one = current@;
            r.push(current);
            current = Vec::new();
            from = i + 1;
            proof {
                assert(r@.last().deep_view() =~= one);
                assert(r.deep_view() =~= before.push(one));
                assert(before + (seq![one] + frames(data@.skip(from as int))) =~= before.push(one)
                    + frames(data@.skip(from as int)));
                assert(current@ =~= data@.subrange(from as int, i + 1));
            }
        } else {
            current.push(byte);
            proof {
                assert(current@ =~= data@.subrange(from as int, i + 1));
            }
        }
        i = i + 1;
    }
    proof {
        let rest = data@.skip(from as int);
        assert forall|k: int| 0 <= k < rest.len() implies rest[k] != 0 by {
            assert(rest[k] == data@[from + k]);
        }
        lemma_zero_in(rest, rest.len());
        assert(r.deep_view() + Seq::empty() =~= r.deep_view());
    }
    r
}

/// How many bytes the first `n` messages take, with the zero bytes behind them.
pub open spec fn frames_len(frames: Seq<Seq<u8>>, n: nat) -> nat
    decreases n,
{
    if n == 0 {
        0
    } else {
        frames_len(frames, (n - 1) as nat) + frames[n - 1].len() + 1
    }
}

proof fn lemma_frames_len_grows(frames: Seq<Seq<u8>>, a: nat, b: nat)
    requires
        a <= b,
    ensures
        frames_len(frames, a) <= frames_len(frames, b),
    decreases b,
{
    if a < b {
        lemma_frames_len_grows(frames, a, (b - 1) as nat);
    }
}

/// How many bytes the first `n` messages take, with the zero bytes behind them.
pub fn length_of_frames(frames: &Vec<Vec<u8>>, n: usize) -> (r: usize)
    requires
        n <= frames@.len(),
        frames_len(frames.deep_view(), n as nat) <= usize::MAX,
    ensures
        r == frames_len(frames.deep_view(), n as nat),
{
    let ghost all = frames.deep_view();
    let mut r: usize = 0;
    let mut i: usize = 0;
    while i < n
        invariant
            i <= n <= frames@.len(),
            all == frames.deep_view(),
            frames_len(all, n as nat) <= usize::MAX,
            r == frames_len(all, i as nat),
        decreases n - i,
    {
        proof {
            lemma_frames_len_grows(all, (i + 1) as nat, n as nat);
            assert(all[i as int].len() == frames@[i as int]@.len());
        }
        r = r + frames[i].len() + 1;
        i = i + 1;
    }
    r
}

/// What was saved is read back: the messages of a file are those that were written, each with the
/// line break behind it, where no message holds a zero byte.
pub proof fn law_saved_messages_are_read_back(messages: Seq<Seq<u8>>)
    requires
        forall|i: int, k: int|
            0 <= i < messages.len() && 0 <= k < messages[i].len() ==> #[trigger] messages[i][k] != 0,
    ensures
        frames(file_of(messages)) == Seq::new(
            messages.len(),
            |i: int| messages[i] + seq![10u8],
        ),
    decreases messages.len(),
{
    let file = file_of(messages);
    let wanted = Seq::new(messages.len(), |i: int| messages[i] + seq![10u8]);
    if messages.len() == 0 {
        assert(frames(file) =~= wanted);
    } else {
        let head = messages[0];
        let tail = messages.drop_first();
        assert forall|i: int, k: int|
            0 <= i < tail.len() && 0 <= k < tail[i].len() implies #[trigger] tail[i][k] != 0 by {
            assert(messages[i + 1][k] != 0);
        }
        law_saved_messages_are_read_back(tail);
        let n = head.len() + 1;
        assert forall|i: int| 0 <= i < n implies file[i] != 0 by {
            if i < head.len() {
                assert(file[i] == messages[0][i]);
            }
        }
        lemma_zero_in(file, n);
        assert(file.take(n as int) =~= head + seq![10u8]);
        assert(file.skip(n as int + 1) =~= file_of(tail));
        assert(frames(file) =~= wanted);
    }
}

} // verus!
