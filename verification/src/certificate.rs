//! Certificates in PEM form.
use vstd::prelude::*;
use vstd::string::*;

use crate::text::{chars_of, find_from, trimmed_text};

verus! {

/// The line that ends a certificate.
pub open spec fn end_mark() -> Seq<char> {
    "-----END CERTIFICATE-----"@
}

/// Where the first end of a certificate from `from` on is.
pub open spec fn ends_first_at(s: Seq<char>, from: int, i: int) -> bool {
    &&& from <= i
    &&& crate::text::occurs_at(s, end_mark(), i)
    &&& forall|k: int| from <= k < i ==> !crate::text::occurs_at(s, end_mark(), k)
}

/// The certificates of `s` from `from` on, each up to and with its end mark and without the white
/// space around it. What follows the last end mark is no certificate.
pub open spec fn certificates_from(s: Seq<char>, from: int) -> Seq<Seq<char>>
    decreases s.len() - from,
{
    if exists|i: int| ends_first_at(s, from, i) {
        let i = choose|i: int| ends_first_at(s, from, i);
        let end = i + end_mark().len();
        if from < end <= s.len() {
            seq![crate::text::trimmed(s.subrange(from, end))] + certificates_from(s, end)
        } else {
            Seq::empty()
        }
    } else {
        Seq::empty()
    }
}

/// Cuts a chain of certificates into its certificates.
pub fn split_certificate_chain(chain: String) -> (r: Vec<String>)
    ensures
        r.deep_view() == certificates_from(chain@, 0),
{
    let chars = chars_of(chain.as_str());
    let mark = chars_of("-----END CERTIFICATE-----");
    let mut r: Vec<String> = Vec::new();
    let mut from: usize = 0;
    proof {
        reveal_strlit("-----END CERTIFICATE-----");
        assert(r.deep_view() + certificates_from(chars@, 0) =~= certificates_from(chars@, 0));
    }
    loop
        invariant
            mark@ == end_mark(),
            mark.len() == 25,
            from <= chars.len(),
            r.deep_view() + certificates_from(chars@, from as int) == certificates_from(chars@, 0),
        ensures
            r.deep_view() == certificates_from(chars@, 0),
        decreases chars.len() - from,
    {
        match find_from(&chars, &mark, from) {
            None => {
                proof {
                    assert forall|i: int| !ends_first_at(chars@, from as int, i) by {}
                    assert(r.deep_view() + Seq::empty() =~= r.deep_view());
                }
                break;
            },
            Some(i) => {
                let end = i + mark.len();
                let ghost before = r.deep_view();
                proof {
                    assert(ends_first_at(chars@, from as int, i as int));
                    let c = choose|c: int| ends_first_at(chars@, from as int, c);
                    assert(ends_first_at(chars@, from as int, c));
                    assert(c == i);
                }
                let certificate = trimmed_text(&chars, from, end);
                r.push(certificate);
                proof {
                    assert(r.deep_view() =~= before.push(certificate@));
                    assert(before + (seq![certificate@] + certificates_from(chars@, end as int))
                        =~= r.deep_view() + certificates_from(chars@, end as int));
                }
                from = end;
            },
        }
    }
    r
}

proof fn lemma_certificates_behind(s: Seq<char>, before: int, from: int)
    requires
        0 <= before <= from <= s.len(),
    ensures
        certificates_from(s, from) == certificates_from(s.skip(before), from - before),
    decreases s.len() - from,
{
    let t = s.skip(before);
    let start = from - before;
    assert forall|i: int| before <= i implies (#[trigger] crate::text::occurs_at(s, end_mark(), i)
        <==> crate::text::occurs_at(t, end_mark(), i - before)) by {
        if i + end_mark().len() <= s.len() {
            assert(s.subrange(i, i + end_mark().len()) =~= t.subrange(
                i - before,
                i - before + end_mark().len(),
            ));
        }
    }
    assert forall|i: int| #[trigger] ends_first_at(s, from, i) implies ends_first_at(
        t,
        start,
        i - before,
    ) by {
        assert forall|k: int| start <= k < i - before implies !crate::text::occurs_at(
            t,
            end_mark(),
            k,
        ) by {
            assert(!crate::text::occurs_at(s, end_mark(), k + before));
        }
    }
    assert forall|i: int| #[trigger] ends_first_at(t, start, i) implies ends_first_at(
        s,
        from,
        i + before,
    ) by {
        assert(crate::text::occurs_at(s, end_mark(), i + before));
        assert forall|k: int| from <= k < i + before implies !crate::text::occurs_at(
            s,
            end_mark(),
            k,
        ) by {
            assert(!crate::text::occurs_at(t, end_mark(), k - before));
        }
    }
    if exists|i: int| ends_first_at(s, from, i) {
        let i = choose|i: int| ends_first_at(s, from, i);
        assert(ends_first_at(t, start, i - before));
        let j = choose|j: int| ends_first_at(t, start, j);
        assert(ends_first_at(s, from, j + before));
        assert(j == i - before);
        let end = i + end_mark().len();
        if from < end <= s.len() {
            assert(s.subrange(from, end) =~= t.subrange(start, end - before));
            lemma_certificates_behind(s, before, end);
        }
    } else {
        assert forall|i: int| !ends_first_at(t, start, i) by {
            if ends_first_at(t, start, i) {
                assert(ends_first_at(s, from, i + before));
            }
        }
    }
}

/// A chain is cut behind every end mark: the text up to the first one is the first certificate, without
/// the white space around it, and the others are those of the rest. Text without an end mark holds no
/// certificate.
pub proof fn law_chain_is_cut_behind_its_marks(first: Seq<char>, rest: Seq<char>)
    ensures
        ({
            let n = first.len() - 25;
            crate::text::occurs_at(first, "-----END CERTIFICATE-----"@, n) && (forall|k: int|
                0 <= k < n ==> !crate::text::occurs_at(first, "-----END CERTIFICATE-----"@, k))
                ==> certificates_from(first + rest, 0) == seq![crate::text::trimmed(first)]
                + certificates_from(rest, 0)
        }),
        !crate::text::contains_text(first, "-----END CERTIFICATE-----"@) ==> certificates_from(
            first,
            0,
        ).len() == 0,
{
    reveal_strlit("-----END CERTIFICATE-----");
    let mark = end_mark();
    let n = first.len() - 25;
    let s = first + rest;
    if crate::text::occurs_at(first, mark, n) && (forall|k: int|
        0 <= k < n ==> !crate::text::occurs_at(first, mark, k)) {
        assert(s.subrange(n, n + 25) =~= first.subrange(n, n + 25));
        assert(ends_first_at(s, 0, n)) by {
            assert forall|k: int| 0 <= k < n implies !crate::text::occurs_at(s, mark, k) by {
                assert(s.subrange(k, k + 25) =~= first.subrange(k, k + 25));
                assert(!crate::text::occurs_at(first, mark, k));
            }
        }
        let i = choose|i: int| ends_first_at(s, 0, i);
        assert(ends_first_at(s, 0, i));
        assert(i == n);
        assert(s.subrange(0, first.len() as int) =~= first);
        lemma_certificates_behind(s, first.len() as int, first.len() as int);
        assert(s.skip(first.len() as int) =~= rest);
    }
    if !crate::text::contains_text(first, mark) {
        assert forall|i: int| !ends_first_at(first, 0, i) by {
            assert(!crate::text::occurs_at(first, mark, i));
        }
    }
}

} // verus!
