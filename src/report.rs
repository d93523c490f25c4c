use vstd::prelude::*;
use crate::frame::TrackerTable;

verus! {

/// Decimal digits of `n`, most significant first, in ASCII.
pub open spec fn digits(n: nat) -> Seq<u8>
    decreases n,
{
    if n < 10 {
        seq![(48 + n) as u8]
    } else {
        digits(n / 10).push((48 + n % 10) as u8)
    }
}

/// Decimal text of a signed integer.
pub open spec fn int_text(v: int) -> Seq<u8> {
    if v < 0 {
        seq![45u8] + digits((-v) as nat)
    } else {
        digits(v as nat)
    }
}

/// A value given in hundredths, written with two decimals: `h / 100`, a
/// point, then the two digits of `h % 100`.
pub open spec fn hundredths_text(h: nat) -> Seq<u8> {
    digits(h / 100) + seq![46u8, (48 + (h % 100) / 10) as u8, (48 + h % 10) as u8]
}

/// The texts of `v` under `f`, separated by single spaces.
pub open spec fn joined(v: Seq<nat>, f: spec_fn(nat) -> Seq<u8>) -> Seq<u8>
    decreases v.len(),
{
    if v.len() == 0 {
        Seq::empty()
    } else if v.len() == 1 {
        f(v[0])
    } else {
        joined(v.drop_last(), f) + seq![32u8] + f(v.last())
    }
}

pub open spec fn crlf() -> Seq<u8> {
    seq![13u8, 10u8]
}

pub open spec fn nats_of_u128(v: Seq<u128>) -> Seq<nat> {
    v.map_values(|x: u128| x as nat)
}

pub open spec fn nats_of_u64(v: Seq<u64>) -> Seq<nat> {
    v.map_values(|x: u64| x as nat)
}

/// The collision-statistics record written at frame `step`: the step number,
/// then one line per column (collisions, mean atoms per occupied box with two
/// decimals, occupied boxes), values separated by spaces, each line ended by
/// CR LF.
pub open spec fn stats_text(step: int, t: TrackerTable) -> Seq<u8> {
    int_text(step) + crlf() + joined(nats_of_u128(t.collisions@), |n: nat| digits(n)) + crlf()
        + joined(nats_of_u128(t.mean_atoms_hundredths@), |n: nat| hundredths_text(n)) + crlf()
        + joined(nats_of_u64(t.occupied_boxes@), |n: nat| digits(n)) + crlf()
}

fn push_digits(out: &mut Vec<u8>, n: u128)
    ensures
        final(out)@ == old(out)@ + digits(n as nat),
    decreases n,
{
    if n >= 10 {
        push_digits(out, n / 10);
    }
    out.push((48 + n % 10) as u8);
}

fn push_hundredths(out: &mut Vec<u8>, h: u128)
    ensures
        final(out)@ == old(out)@ + hundredths_text(h as nat),
{
    push_digits(out, h / 100);
    out.push(46u8);
    out.push((48 + (h % 100) / 10) as u8);
    out.push((48 + h % 10) as u8);
}

fn push_column_u128(out: &mut Vec<u8>, v: &Vec<u128>, as_hundredths: bool)
    ensures
        as_hundredths ==> final(out)@ == old(out)@ + joined(
            nats_of_u128(v@),
            |n: nat| hundredths_text(n),
        ),
        !as_hundredths ==> final(out)@ == old(out)@ + joined(nats_of_u128(v@), |n: nat| digits(n)),
{
    let ghost start = out@;
    let ghost f = if as_hundredths {
        |n: nat| hundredths_text(n)
    } else {
        |n: nat| digits(n)
    };
    let mut i: usize = 0;
    while i < v.len()
        invariant
            i <= v@.len(),
            f == (if as_hundredths {
                |n: nat| hundredths_text(n)
            } else {
                |n: nat| digits(n)
            }),
            out@ == start + joined(nats_of_u128(v@.take(i as int)), f),
        decreases v@.len() - i,
    {
        let ghost before = out@;
        if i > 0 {
            out.push(32u8);
        }
        if as_hundredths {
            push_hundredths(out, v[i]);
        } else {
            push_digits(out, v[i]);
        }
        proof {
            let s = nats_of_u128(v@.take(i + 1));
            assert(s.drop_last() == nats_of_u128(v@.take(i as int)));
            assert(s.last() == v@[i as int] as nat);
            if i == 0 {
                assert(nats_of_u128(v@.take(0)).len() == 0);
                assert(out@ == before + f(s[0]));
            } else {
                assert(out@ == before + seq![32u8] + f(s.last()));
            }
        }
        i = i + 1;
    }
    assert(v@.take(i as int) == v@);
}

fn push_column_u64(out: &mut Vec<u8>, v: &Vec<u64>)
    ensures
        final(out)@ == old(out)@ + joined(nats_of_u64(v@), |n: nat| digits(n)),
{
    let ghost start = out@;
    let mut i: usize = 0;
    while i < v.len()
        invariant
            i <= v@.len(),
            out@ == start + joined(nats_of_u64(v@.take(i as int)), |n: nat| digits(n)),
        decreases v@.len() - i,
    {
        let ghost before = out@;
        if i > 0 {
            out.push(32u8);
        }
        push_digits(out, v[i] as u128);
        proof {
            let s = nats_of_u64(v@.take(i + 1));
            assert(s.drop_last() == nats_of_u64(v@.take(i as int)));
            assert(s.last() == v@[i as int] as nat);
        }
        i = i + 1;
    }
    assert(v@.take(i as int) == v@);
}

/// The bytes of the collision-statistics record of frame `step`.
pub fn render_stats(step: i32, table: &TrackerTable) -> (r: Vec<u8>)
    ensures
        r@ == stats_text(step as int, *table),
{
    let mut out: Vec<u8> = Vec::new();
    if step < 0 {
        out.push(45u8);
        push_digits(&mut out, (-(step as i64)) as u128);
    } else {
        push_digits(&mut out, step as u128);
    }
    out.push(13u8);
    out.push(10u8);
    push_column_u128(&mut out, &table.collisions, false);
    out.push(13u8);
    out.push(10u8);
    push_column_u128(&mut out, &table.mean_atoms_hundredths, true);
    out.push(13u8);
    out.push(10u8);
    push_column_u64(&mut out, &table.occupied_boxes);
    out.push(13u8);
    out.push(10u8);
    assert(out@ =~= stats_text(step as int, *table));
    out
}

} // verus!
