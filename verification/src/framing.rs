//! Streamed-array framing of a channel's messages file.
//!
//! A messages file is built incrementally: one opening delimiter, then
//! batches of records separated by delimiters, then — only on clean
//! completion — one closing delimiter.  Records themselves are opaque byte
//! payloads.  The spec functions here pin down the exact byte sequence a
//! file holds at every stage, so the orchestrator can prove that a closed
//! file is a complete array and an interrupted one is missing only the
//! closing delimiter.

use vstd::prelude::*;
use crate::work::MessageRecord;

verus! {

/// The opening array delimiter, `[`.
pub const OPEN_DELIM: u8 = 91;

/// The record separator, `,`.
pub const SEPARATOR: u8 = 44;

/// The closing array delimiter, `]`.
pub const CLOSE_DELIM: u8 = 93;

/// The records joined by the separator, with no separator leading,
/// trailing, or doubled.
pub open spec fn joined(records: Seq<Seq<u8>>) -> Seq<u8>
    decreases records.len(),
{
    if records.len() == 0 {
        Seq::<u8>::empty()
    } else if records.len() == 1 {
        records[0]
    } else {
        records[0] + seq![SEPARATOR] + joined(records.drop_first())
    }
}

/// The byte contents of a messages file that was opened and has had
/// `records` written, but not yet closed: an incomplete array.
pub open spec fn array_body(records: Seq<Seq<u8>>) -> Seq<u8> {
    seq![OPEN_DELIM] + joined(records)
}

/// The byte contents of a complete, well-formed messages file holding
/// exactly `records`.
pub open spec fn array_encoding(records: Seq<Seq<u8>>) -> Seq<u8> {
    array_body(records) + seq![CLOSE_DELIM]
}

/// The bytes appended for one non-empty batch: a leading separator only
/// when records were already written before this batch, then the batch's
/// records joined by separators, with no trailing separator.
pub open spec fn batch_encoding(already_written: bool, records: Seq<Seq<u8>>) -> Seq<u8> {
    if already_written {
        seq![SEPARATOR] + joined(records)
    } else {
        joined(records)
    }
}

/// Joining distributes over concatenation, paying one separator at the
/// seam when both sides are non-empty.
pub proof fn lemma_joined_concat(a: Seq<Seq<u8>>, b: Seq<Seq<u8>>)
    requires
        b.len() > 0,
    ensures
        a.len() > 0 ==> joined(a + b) == joined(a) + seq![SEPARATOR] + joined(b),
        a.len() == 0 ==> joined(a + b) == joined(b),
    decreases a.len(),
{
    if a.len() == 0 {
        assert(a + b =~= b);
    } else if a.len() == 1 {
        let ab = a + b;
        assert(ab.len() >= 2);
        assert(ab[0] == a[0]);
        assert(ab.drop_first() =~= b);
        assert(joined(ab) == a[0] + seq![SEPARATOR] + joined(b));
        assert(joined(a) == a[0]);
    } else {
        let ab = a + b;
        assert(ab.len() >= 2);
        assert(ab[0] == a[0]);
        assert(ab.drop_first() =~= a.drop_first() + b);
        lemma_joined_concat(a.drop_first(), b);
        assert(joined(a.drop_first() + b) == joined(a.drop_first()) + seq![SEPARATOR] + joined(b));
        assert(joined(ab) == a[0] + seq![SEPARATOR] + (joined(a.drop_first()) + seq![SEPARATOR]
            + joined(b)));
        assert(joined(a) == a[0] + seq![SEPARATOR] + joined(a.drop_first()));
        assert(a[0] + seq![SEPARATOR] + (joined(a.drop_first()) + seq![SEPARATOR] + joined(b))
            =~= (a[0] + seq![SEPARATOR] + joined(a.drop_first())) + seq![SEPARATOR] + joined(b));
    }
}

/// Appending one non-empty batch to an incomplete array extends it to the
/// incomplete array of the combined record list, provided the leading
/// separator is used exactly when records were already present.
pub proof fn lemma_batch_extends_body(prior: Seq<Seq<u8>>, batch: Seq<Seq<u8>>)
    requires
        batch.len() > 0,
    ensures
        array_body(prior) + batch_encoding(prior.len() > 0, batch) == array_body(prior + batch),
{
    lemma_joined_concat(prior, batch);
    if prior.len() > 0 {
        assert(array_body(prior) + batch_encoding(true, batch) =~= seq![OPEN_DELIM] + (joined(
            prior,
        ) + seq![SEPARATOR] + joined(batch)));
        assert(seq![OPEN_DELIM] + (joined(prior) + seq![SEPARATOR] + joined(batch)) =~= seq![
            OPEN_DELIM,
        ] + joined(prior + batch));
    } else {
        assert(prior =~= Seq::<Seq<u8>>::empty());
        assert(joined(prior).len() == 0);
        assert(array_body(prior) + batch_encoding(false, batch) =~= seq![OPEN_DELIM] + joined(
            prior + batch,
        ));
    }
}

/// An incomplete array is the complete encoding with only the closing
/// delimiter missing: its strict prefix of all but the last byte.
pub proof fn lemma_body_is_all_but_close(records: Seq<Seq<u8>>)
    ensures
        array_encoding(records).len() == array_body(records).len() + 1,
        array_body(records) == array_encoding(records).take(
            array_encoding(records).len() - 1,
        ),
        array_encoding(records).last() == CLOSE_DELIM,
{
    assert(array_body(records) =~= array_encoding(records).take(
        array_encoding(records).len() - 1,
    ));
}

/// The opening delimiter, as written when a channel's file is created.
pub fn open_bytes() -> (r: Vec<u8>)
    ensures
        r@ == seq![OPEN_DELIM],
        r@ == array_body(Seq::<Seq<u8>>::empty()),
{
    let mut r: Vec<u8> = Vec::new();
    r.push(OPEN_DELIM);
    proof {
        assert(r@ =~= seq![OPEN_DELIM]);
        assert(joined(Seq::<Seq<u8>>::empty()).len() == 0);
        assert(r@ =~= array_body(Seq::<Seq<u8>>::empty()));
    }
    r
}

/// The closing delimiter, as written when a channel completes.
pub fn close_bytes() -> (r: Vec<u8>)
    ensures
        r@ == seq![CLOSE_DELIM],
{
    let mut r: Vec<u8> = Vec::new();
    r.push(CLOSE_DELIM);
    proof {
        assert(r@ =~= seq![CLOSE_DELIM]);
    }
    r
}

/// The payload bytes of a batch of fetched messages.
pub open spec fn payload_views(msgs: Seq<MessageRecord>) -> Seq<Seq<u8>> {
    msgs.map_values(|m: MessageRecord| m.payload@)
}

/// Append every byte of `src` to `dst`.
fn extend_bytes(dst: &mut Vec<u8>, src: &Vec<u8>)
    ensures
        final(dst)@ == old(dst)@ + src@,
{
    let n = src.len();
    let mut i: usize = 0;
    while i < n
        invariant
            0 <= i <= n,
            n == src@.len(),
            dst@ == old(dst)@ + src@.subrange(0, i as int),
        decreases n - i,
    {
        dst.push(src[i]);
        proof {
            assert(old(dst)@ + src@.subrange(0, i as int) + seq![src@[i as int]] =~= old(dst)@
                + src@.subrange(0, i + 1));
        }
        i = i + 1;
    }
    proof {
        assert(src@.subrange(0, n as int) =~= src@);
    }
}

/// The bytes to append for one non-empty batch of fetched messages.
pub fn batch_bytes(already_written: bool, msgs: &Vec<MessageRecord>) -> (r: Vec<u8>)
    requires
        msgs@.len() > 0,
    ensures
        r@ == batch_encoding(already_written, payload_views(msgs@)),
{
    let ghost views = payload_views(msgs@);
    let mut r: Vec<u8> = Vec::new();
    if already_written {
        r.push(SEPARATOR);
        proof {
            assert(r@ =~= seq![SEPARATOR]);
        }
    }
    let ghost lead = r@;
    let n = msgs.len();
    let mut i: usize = 0;
    while i < n
        invariant
            0 < n == msgs@.len(),
            views == payload_views(msgs@),
            views.len() == n,
            0 <= i <= n,
            i == 0 ==> r@ == lead,
            i > 0 ==> r@ == lead + joined(views.subrange(0, i as int)),
        decreases n - i,
    {
        if i > 0 {
            r.push(SEPARATOR);
        }
        extend_bytes(&mut r, &msgs[i].payload);
        proof {
            assert(views[i as int] == msgs@[i as int].payload@);
            if i == 0 {
                assert(views.subrange(0, 1) =~= seq![views[0]]);
                assert(joined(seq![views[0]]) == views[0]);
                assert(r@ =~= lead + joined(views.subrange(0, 1)));
            } else {
                lemma_joined_concat(views.subrange(0, i as int), seq![views[i as int]]);
                assert(views.subrange(0, i as int) + seq![views[i as int]] =~= views.subrange(
                    0,
                    i + 1,
                ));
                assert(joined(views.subrange(0, i + 1)) == joined(views.subrange(0, i as int))
                    + seq![SEPARATOR] + views[i as int]);
                assert(r@ =~= lead + joined(views.subrange(0, i + 1)));
            }
        }
        i = i + 1;
    }
    proof {
        assert(views.subrange(0, n as int) =~= views);
        if already_written {
            assert(r@ =~= batch_encoding(true, views));
        } else {
            assert(lead.len() == 0);
            assert(r@ =~= batch_encoding(false, views));
        }
    }
    r
}

} // verus!
