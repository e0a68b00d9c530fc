//! Parsing of section schedule strings.
//!
//! A schedule string has the shape `"<period>(<day-spec>)"`: a base-ten period
//! number, then a parenthesised day specification. The day specification is a
//! comma-separated list of day letters `A`-`E` or letter ranges such as `A-C`;
//! letter `A` names week slot 1 and `E` names week slot 5 of a seven-slot week
//! whose slots 0 and 6 are reserved. A string that does not match this grammar
//! parses to [`SectionDataGuts::Bad`] holding the original string untouched;
//! parsing never panics.

use vstd::prelude::*;
use vstd::string::StringExecFns;
use crate::data::{SectionData, SectionDataGuts};
use crate::strutil::{
    all_digits, chars_vec, digits_val, find_char_from, first_index_of, is_digit_char,
    lemma_first_index_of_unique, lemma_u64_chars_digits, parse_u64, subvec, u64_chars,
};

verus! {

/// `c` is one of the day letters `A` through `E`.
pub open spec fn is_day_letter(c: char) -> bool {
    65 <= c as u32 <= 69
}

/// Week slot named by a day letter: `A` is slot 1, ..., `E` is slot 5.
pub open spec fn day_slot(c: char) -> int {
    c as u32 - 65 + 1
}

/// A day piece: a single day letter, or a `X-Y` range of day letters.
pub open spec fn wf_piece(p: Seq<char>) -> bool {
    ||| (p.len() == 1 && is_day_letter(p[0]))
    ||| (p.len() == 3 && is_day_letter(p[0]) && p[1] == '-' && is_day_letter(p[2]))
}

/// Week slots a piece turns on. A reversed range such as `C-A` turns on none.
pub open spec fn piece_activates(p: Seq<char>, d: int) -> bool {
    if p.len() == 1 {
        d == day_slot(p[0])
    } else {
        day_slot(p[0]) <= d <= day_slot(p[2])
    }
}

/// Split at commas; a sequence without commas yields itself as its one piece.
pub open spec fn split_commas(s: Seq<char>) -> Seq<Seq<char>>
    decreases s.len(),
{
    let i = first_index_of(s, ',');
    if 0 <= i < s.len() {
        seq![s.take(i)] + split_commas(s.skip(i + 1))
    } else {
        seq![s]
    }
}

/// A well-formed day specification: empty, or made of well-formed pieces only.
pub open spec fn wf_dayspec(s: Seq<char>) -> bool {
    s.len() == 0 || (forall|k: int|
        0 <= k < split_commas(s).len() ==> wf_piece(#[trigger] split_commas(s)[k]))
}

/// Week slot `d` is turned on by day specification `s`.
pub open spec fn dayspec_active(s: Seq<char>, d: int) -> bool {
    s.len() != 0 && exists|k: int|
        0 <= k < split_commas(s).len() && piece_activates(#[trigger] split_commas(s)[k], d)
}

/// Position of the first opening parenthesis.
pub open spec fn paren_at(s: Seq<char>) -> int {
    first_index_of(s, '(')
}

/// The schedule grammar: a non-empty run of digits whose value fits a `u64`,
/// an opening parenthesis, a well-formed day specification, and a closing
/// parenthesis as the final character.
pub open spec fn wf_schedule(s: Seq<char>) -> bool {
    let p = paren_at(s);
    &&& 1 <= p
    &&& p + 2 <= s.len()
    &&& all_digits(s.take(p))
    &&& digits_val(s.take(p)) <= u64::MAX
    &&& s.last() == ')'
    &&& wf_dayspec(s.subrange(p + 1, s.len() - 1))
}

/// Period of a well-formed schedule string.
pub open spec fn spec_period(s: Seq<char>) -> u64 {
    digits_val(s.take(paren_at(s))) as u64
}

/// The seven week slots of a well-formed schedule string.
pub open spec fn spec_days(s: Seq<char>) -> Seq<bool> {
    Seq::new(7, |d: int| dayspec_active(s.subrange(paren_at(s) + 1, s.len() - 1), d))
}

/// Some piece among the first `k` turns slot `d` on.
pub open spec fn pieces_active_upto(ps: Seq<Seq<char>>, k: int, d: int) -> bool {
    exists|m: int| 0 <= m < k && piece_activates(#[trigger] ps[m], d)
}

proof fn lemma_active_upto_step(ps: Seq<Seq<char>>, k: int, d: int)
    requires
        0 <= k < ps.len(),
    ensures
        pieces_active_upto(ps, k + 1, d) == (pieces_active_upto(ps, k, d) || piece_activates(
            ps[k],
            d,
        )),
{
    if pieces_active_upto(ps, k, d) {
        let m = choose|m: int| 0 <= m < k && piece_activates(#[trigger] ps[m], d);
        assert(piece_activates(ps[m], d));
    } else if piece_activates(ps[k], d) {
        assert(pieces_active_upto(ps, k + 1, d));
    } else if pieces_active_upto(ps, k + 1, d) {
        let m = choose|m: int| 0 <= m < k + 1 && piece_activates(#[trigger] ps[m], d);
        assert(m < k || m == k);
        assert(pieces_active_upto(ps, k, d));
    }
}

/// Validate `v[from..to]` as one day piece; on success return the slot range
/// it turns on (empty when the range is reversed).
fn check_piece(v: &Vec<char>, from: usize, to: usize) -> (r: Option<(usize, usize)>)
    requires
        from <= to <= v@.len(),
    ensures
        match r {
            Some((lo, hi)) => {
                &&& wf_piece(v@.subrange(from as int, to as int))
                &&& 1 <= lo <= 5
                &&& 1 <= hi <= 5
                &&& forall|d: int|
                    piece_activates(v@.subrange(from as int, to as int), d) == (lo <= d <= hi)
            },
            None => !wf_piece(v@.subrange(from as int, to as int)),
        },
{
    let ghost p = v@.subrange(from as int, to as int);
    if to - from == 1 {
        let c = v[from] as u32;
        proof {
            assert(p[0] == v@[from as int]);
        }
        if 65 <= c && c <= 69 {
            let slot = (c - 65 + 1) as usize;
            Some((slot, slot))
        } else {
            None
        }
    } else if to - from == 3 {
        let c0 = v[from] as u32;
        let c1 = v[from + 1];
        let c2 = v[from + 2] as u32;
        proof {
            assert(p[0] == v@[from as int]);
            assert(p[1] == v@[from + 1]);
            assert(p[2] == v@[from + 2]);
        }
        if 65 <= c0 && c0 <= 69 && c1 == '-' && 65 <= c2 && c2 <= 69 {
            Some((((c0 - 65 + 1) as usize), ((c2 - 65 + 1) as usize)))
        } else {
            None
        }
    } else {
        None
    }
}

/// Turn on the slots `lo..=hi` (clipped to slots 1 through 5).
fn merge_range(days: &mut [bool; 7], lo: usize, hi: usize)
    requires
        1 <= lo <= 5,
        1 <= hi <= 5,
    ensures
        forall|d: int| 0 <= d < 7 ==> final(days)@[d] == (old(days)@[d] || (lo <= d <= hi)),
{
    let mut d: usize = 1;
    while d < 6
        invariant
            1 <= d <= 6,
            days@.len() == 7,
            forall|m: int| 0 <= m < d ==> days@[m] == (old(days)@[m] || (lo <= m <= hi)),
            forall|m: int| d <= m < 7 ==> days@[m] == old(days)@[m],
            1 <= lo <= 5,
            1 <= hi <= 5,
        decreases 6 - d,
    {
        let on = lo <= d && d <= hi;
        if on {
            days[d] = true;
        }
        d = d + 1;
    }
}

/// Parse a whole day specification into the seven week slots.
fn parse_dayspec(ds: &Vec<char>) -> (r: Option<[bool; 7]>)
    ensures
        r is Some <==> wf_dayspec(ds@),
        r matches Some(days) ==> forall|d: int| 0 <= d < 7 ==> days@[d] == dayspec_active(ds@, d),
{
    let n = ds.len();
    let mut days: [bool; 7] = [false; 7];
    if n == 0 {
        proof {
            assert(forall|d: int| 0 <= d < 7 ==> days@[d] == false);
        }
        return Some(days);
    }
    let ghost pieces = split_commas(ds@);
    let ghost mut k: int = 0;
    let mut start: usize = 0;
    proof {
        assert(ds@.skip(0) =~= ds@);
        assert(pieces.take(0) + split_commas(ds@) =~= pieces);
    }
    loop
        invariant
            n == ds@.len(),
            1 <= n,
            start <= n,
            pieces == split_commas(ds@),
            0 <= k <= pieces.len(),
            pieces =~= pieces.take(k) + split_commas(ds@.skip(start as int)),
            forall|m: int| 0 <= m < k ==> wf_piece(#[trigger] pieces[m]),
            forall|d: int| 0 <= d < 7 ==> days@[d] == pieces_active_upto(pieces, k, d),
        decreases n - start,
    {
        let j = find_char_from(ds, ',', start);
        let ghost rest = ds@.skip(start as int);
        proof {
            assert forall|m: int| 0 <= m < j - start implies rest[m] != ',' by {
                assert(rest[m] == ds@[start + m]);
            }
            if j < n {
                assert(rest[j - start] == ds@[j as int]);
            }
            lemma_first_index_of_unique(rest, ',', j - start);
        }
        let ghost piece = ds@.subrange(start as int, j as int);
        proof {
            if j < n {
                assert(rest.take(j - start) =~= piece);
                assert(rest.skip(j - start + 1) =~= ds@.skip(j + 1));
                assert(split_commas(rest) == seq![piece] + split_commas(ds@.skip(j + 1)));
            } else {
                assert(rest =~= piece);
                assert(split_commas(rest) == seq![piece]);
            }
            assert(pieces[k] == piece);
        }
        match check_piece(ds, start, j) {
            None => {
                proof {
                    assert(!wf_piece(pieces[k]));
                }
                return None;
            },
            Some((lo, hi)) => {
                merge_range(&mut days, lo, hi);
                proof {
                    assert forall|d: int| 0 <= d < 7 implies days@[d] == pieces_active_upto(
                        pieces,
                        k + 1,
                        d,
                    ) by {
                        lemma_active_upto_step(pieces, k, d);
                    }
                    k = k + 1;
                }
                if j == n {
                    proof {
                        assert(pieces.take(k - 1) + seq![piece] =~= pieces);
                        assert(pieces.len() == k);
                    }
                    return Some(days);
                }
                proof {
                    assert(pieces.take(k - 1).push(piece) =~= pieces.take(k));
                    assert(pieces.take(k) + split_commas(ds@.skip(j + 1)) =~= pieces.take(k - 1)
                        + split_commas(rest));
                }
                start = j + 1;
            },
        }
    }
}

impl SectionDataGuts {
    /// Parse a schedule string into its `Good` form; reports an error exactly
    /// on strings that do not match the schedule grammar.
    pub fn try_good_from_str(s: &str) -> (r: Result<SectionDataGuts, String>)
        ensures
            r is Ok <==> wf_schedule(s@),
            r matches Ok(g) ==> (g matches SectionDataGuts::Good { days, period } && period
                == spec_period(s@) && days@ =~= spec_days(s@)),
    {
        let v = chars_vec(s);
        let n = v.len();
        let p = find_char_from(&v, '(', 0);
        proof {
            lemma_first_index_of_unique(v@, '(', p as int);
        }
        if p == n || p == 0 {
            return Result::Err(String::from_str("schedule: missing period or parenthesis"));
        }
        let period = match parse_u64(&v, 0, p) {
            Some(x) => x,
            None => {
                proof {
                    assert(v@.subrange(0, p as int) =~= v@.take(p as int));
                }
                return Result::Err(String::from_str("schedule: period is not a number"));
            },
        };
        proof {
            assert(v@.subrange(0, p as int) =~= v@.take(p as int));
        }
        if n - p < 2 {
            return Result::Err(String::from_str("schedule: day specification is missing"));
        }
        if v[n - 1] != ')' {
            proof {
                assert(v@.last() == v@[n - 1]);
            }
            return Result::Err(String::from_str("schedule: missing closing parenthesis"));
        }
        let ds = subvec(&v, p + 1, n - 1);
        match parse_dayspec(&ds) {
            Some(days) => {
                proof {
                    assert(v@.last() == v@[n - 1]);
                    assert forall|d: int| 0 <= d < 7 implies days@[d] == spec_days(v@)[d] by {
                        assert(days@[d] == dayspec_active(ds@, d));
                    }
                    assert(days@ =~= spec_days(v@));
                }
                Result::Ok(SectionDataGuts::Good { days, period })
            },
            None => Result::Err(String::from_str("schedule: bad day specification")),
        }
    }
}

/// Letter naming a week slot: slot 1 is `A`, ..., slot 5 is `E`.
pub open spec fn slot_letter(d: int) -> char {
    if d == 1 {
        'A'
    } else if d == 2 {
        'B'
    } else if d == 3 {
        'C'
    } else if d == 4 {
        'D'
    } else {
        'E'
    }
}

/// The active week slots at or after slot `d`, in increasing order.
pub open spec fn active_slots(days: Seq<bool>, d: int) -> Seq<int>
    decreases 6 - d,
{
    if d < 1 || d >= 6 {
        Seq::empty()
    } else if days[d] {
        seq![d] + active_slots(days, d + 1)
    } else {
        active_slots(days, d + 1)
    }
}

/// Rest of a comma-joined letter list (a comma before every letter).
pub open spec fn tail_join(slots: Seq<int>) -> Seq<char>
    decreases slots.len(),
{
    if slots.len() == 0 {
        Seq::empty()
    } else {
        seq![',', slot_letter(slots[0])] + tail_join(slots.drop_first())
    }
}

/// The letters of `slots` joined by commas.
pub open spec fn join_slots(slots: Seq<int>) -> Seq<char>
    decreases slots.len(),
{
    if slots.len() == 0 {
        Seq::empty()
    } else {
        seq![slot_letter(slots[0])] + tail_join(slots.drop_first())
    }
}

/// Canonical day specification of a week: the letters of the active slots.
pub open spec fn canon_days(days: Seq<bool>) -> Seq<char> {
    join_slots(active_slots(days, 1))
}

/// Canonical schedule string for a period and a week.
pub open spec fn canon_chars(period: u64, days: Seq<bool>) -> Seq<char> {
    u64_chars(period as nat) + seq!['('] + canon_days(days) + seq![')']
}

proof fn lemma_join_push(slots: Seq<int>, x: int)
    ensures
        join_slots(slots.push(x)) =~= join_slots(slots) + (if slots.len() == 0 {
            seq![slot_letter(x)]
        } else {
            seq![',', slot_letter(x)]
        }),
    decreases slots.len(),
{
    if slots.len() == 0 {
        assert(slots.push(x).drop_first() =~= Seq::<int>::empty());
    } else {
        lemma_tail_join_push(slots.drop_first(), x);
        assert(slots.push(x).drop_first() =~= slots.drop_first().push(x));
    }
}

proof fn lemma_tail_join_push(slots: Seq<int>, x: int)
    ensures
        tail_join(slots.push(x)) =~= tail_join(slots) + seq![',', slot_letter(x)],
    decreases slots.len(),
{
    let e = slots.push(x);
    assert(e.len() == slots.len() + 1);
    if slots.len() == 0 {
        assert(e[0] == x);
        assert(e.drop_first() =~= Seq::<int>::empty());
        assert(tail_join(e) == seq![',', slot_letter(e[0])] + tail_join(e.drop_first()));
        assert(tail_join(e.drop_first()) =~= Seq::<char>::empty());
        assert(tail_join(e) =~= seq![',', slot_letter(x)]);
        assert(tail_join(slots) =~= Seq::<char>::empty());
    } else {
        assert(e[0] == slots[0]);
        lemma_tail_join_push(slots.drop_first(), x);
        assert(e.drop_first() =~= slots.drop_first().push(x));
        assert(e.drop_first() == slots.drop_first().push(x));
        assert(tail_join(e) == seq![',', slot_letter(slots[0])] + tail_join(
            slots.drop_first().push(x),
        ));
        assert(tail_join(slots) == seq![',', slot_letter(slots[0])] + tail_join(
            slots.drop_first(),
        ));
    }
}

/// Render the canonical schedule string of a period and a week.
///
/// Reparsing this string recovers the same period and week, which is proved by
/// [`lemma_schedule_round_trip`].
pub fn canonical_schedule_string(period: u64, days: &[bool; 7]) -> (r: String)
    ensures
        r@ == canon_chars(period, days@),
{
    let mut out = crate::strutil::u64_to_chars(period);
    out.push('(');
    let ghost full = active_slots(days@, 1);
    let ghost base = out@;
    let ghost mut emitted: Seq<int> = Seq::empty();
    let mut first = true;
    let mut d: usize = 1;
    proof {
        assert(join_slots(emitted) =~= Seq::<char>::empty());
    }
    while d < 6
        invariant
            1 <= d <= 6,
            days@.len() == 7,
            full == active_slots(days@, 1),
            full =~= emitted + active_slots(days@, d as int),
            first == (emitted.len() == 0),
            out@ =~= base + join_slots(emitted),
        decreases 6 - d,
    {
        if days[d] {
            proof {
                lemma_join_push(emitted, d as int);
            }
            if first {
                out.push(letter_of_slot(d));
                first = false;
            } else {
                out.push(',');
                out.push(letter_of_slot(d));
            }
            proof {
                assert(emitted + active_slots(days@, d as int) =~= emitted.push(d as int)
                    + active_slots(days@, d + 1));
                emitted = emitted.push(d as int);
            }
        } else {
            proof {
                assert(active_slots(days@, d as int) =~= active_slots(days@, d + 1));
            }
        }
        d = d + 1;
    }
    proof {
        assert(active_slots(days@, 6) =~= Seq::<int>::empty());
        assert(emitted =~= full);
    }
    out.push(')');
    proof {
        assert(out@ =~= canon_chars(period, days@));
    }
    crate::strutil::string_from_chars(&out)
}

fn letter_of_slot(d: usize) -> (c: char)
    requires
        1 <= d <= 5,
    ensures
        c == slot_letter(d as int),
{
    if d == 1 {
        'A'
    } else if d == 2 {
        'B'
    } else if d == 3 {
        'C'
    } else if d == 4 {
        'D'
    } else {
        'E'
    }
}

proof fn lemma_active_slots_range(days: Seq<bool>, d: int)
    requires
        days.len() == 7,
        1 <= d <= 6,
    ensures
        forall|k: int|
            0 <= k < active_slots(days, d).len() ==> d <= #[trigger] active_slots(days, d)[k] <= 5
                && days[active_slots(days, d)[k]],
        forall|x: int| d <= x <= 5 && days[x] ==> active_slots(days, d).contains(x),
    decreases 6 - d,
{
    if d < 6 {
        lemma_active_slots_range(days, d + 1);
        if days[d] {
            assert forall|x: int| d <= x <= 5 && days[x] implies active_slots(days, d).contains(
                x,
            ) by {
                if x == d {
                    assert(active_slots(days, d)[0] == x);
                } else {
                    assert(active_slots(days, d + 1).contains(x));
                    let k = choose|k: int|
                        0 <= k < active_slots(days, d + 1).len() && #[trigger] active_slots(
                            days,
                            d + 1,
                        )[k] == x;
                    assert(active_slots(days, d)[k + 1] == x);
                }
            }
        } else {
            assert(active_slots(days, d) =~= active_slots(days, d + 1));
        }
    }
}

proof fn lemma_split_join(slots: Seq<int>)
    requires
        slots.len() >= 1,
        forall|k: int| 0 <= k < slots.len() ==> 1 <= #[trigger] slots[k] <= 5,
    ensures
        split_commas(join_slots(slots)).len() == slots.len(),
        forall|k: int|
            0 <= k < slots.len() ==> #[trigger] split_commas(join_slots(slots))[k] =~= seq![
                slot_letter(slots[k]),
            ],
    decreases slots.len(),
{
    let j = join_slots(slots);
    if slots.len() == 1 {
        assert(j =~= seq![slot_letter(slots[0])]);
        assert(slot_letter(slots[0]) != ',');
        lemma_first_index_of_unique(j, ',', 1);
        assert(split_commas(j) =~= seq![j]);
    } else {
        let rest = slots.drop_first();
        assert(forall|k: int| 0 <= k < rest.len() ==> 1 <= #[trigger] rest[k] <= 5);
        lemma_split_join(rest);
        assert(tail_join(rest) =~= seq![','] + join_slots(rest));
        assert(j =~= seq![slot_letter(slots[0]), ','] + join_slots(rest));
        assert(slot_letter(slots[0]) != ',');
        assert(j[1] == ',');
        lemma_first_index_of_unique(j, ',', 1);
        assert(j.take(1) =~= seq![slot_letter(slots[0])]);
        assert(j.skip(2) =~= join_slots(rest));
        assert(split_commas(j) == seq![j.take(1)] + split_commas(join_slots(rest)));
        assert forall|k: int| 0 <= k < slots.len() implies #[trigger] split_commas(j)[k] =~= seq![
            slot_letter(slots[k]),
        ] by {
            if k == 0 {
                assert(split_commas(j)[0] == j.take(1));
            } else {
                assert(split_commas(j)[k] == split_commas(join_slots(rest))[k - 1]);
                assert(rest[k - 1] == slots[k]);
            }
        }
    }
}

/// Law: the canonical string of a period and a week is a well-formed schedule
/// string, and parsing it recovers exactly that period and that week. Slots 0
/// and 6 are reserved and must be off, as the parser leaves them.
pub proof fn lemma_schedule_round_trip(period: u64, days: Seq<bool>)
    requires
        days.len() == 7,
        !days[0],
        !days[6],
    ensures
        wf_schedule(canon_chars(period, days)),
        spec_period(canon_chars(period, days)) == period,
        spec_days(canon_chars(period, days)) =~= days,
{
    let s = canon_chars(period, days);
    let dig = u64_chars(period as nat);
    let slots = active_slots(days, 1);
    let cd = canon_days(days);
    lemma_u64_chars_digits(period as nat);
    lemma_active_slots_range(days, 1);

    // The first '(' sits right after the digits.
    assert forall|jj: int| 0 <= jj < dig.len() implies s[jj] != '(' by {
        assert(s[jj] == dig[jj]);
        assert(is_digit_char(dig[jj]));
    }
    assert(s[dig.len() as int] == '(');
    lemma_first_index_of_unique(s, '(', dig.len() as int);
    let p = paren_at(s);
    assert(p == dig.len());
    assert(s.take(p) =~= dig);
    assert(s.last() == ')');
    assert(s.subrange(p + 1, s.len() - 1) =~= cd);

    if slots.len() == 0 {
        assert(cd =~= Seq::<char>::empty());
        assert(wf_dayspec(cd));
        assert forall|d: int| 0 <= d < 7 implies spec_days(s)[d] == days[d] by {
            assert(!dayspec_active(cd, d));
            if 1 <= d <= 5 && days[d] {
                assert(slots.contains(d));
            }
        }
    } else {
        lemma_split_join(slots);
        let ps = split_commas(cd);
        assert forall|k: int| 0 <= k < ps.len() implies wf_piece(#[trigger] ps[k]) by {
            assert(ps[k] =~= seq![slot_letter(slots[k])]);
            assert(1 <= slots[k] <= 5);
        }
        assert(wf_dayspec(cd));
        assert forall|d: int| 0 <= d < 7 implies spec_days(s)[d] == days[d] by {
            if days[d] {
                if 1 <= d <= 5 {
                    assert(slots.contains(d));
                    let k = choose|k: int| 0 <= k < slots.len() && slots[k] == d;
                    assert(ps[k] =~= seq![slot_letter(d)]);
                    assert(day_slot(slot_letter(d)) == d);
                    assert(piece_activates(ps[k], d));
                    assert(dayspec_active(cd, d));
                }
            } else {
                if dayspec_active(cd, d) {
                    let k = choose|k: int|
                        0 <= k < ps.len() && piece_activates(#[trigger] ps[k], d);
                    assert(ps[k] =~= seq![slot_letter(slots[k])]);
                    assert(d == day_slot(slot_letter(slots[k])));
                    assert(1 <= slots[k] <= 5);
                    assert(day_slot(slot_letter(slots[k])) == slots[k]);
                    assert(days[slots[k]]);
                }
            }
        }
    }
    assert(digits_val(s.take(p)) == period as nat);
}

impl SectionData {
    /// Parse a schedule string; a string outside the grammar is kept whole in
    /// the `Bad` form, byte for byte.
    pub fn parse(s: &str) -> (r: SectionData)
        ensures
            wf_schedule(s@) ==> (r.guts matches SectionDataGuts::Good { days, period } && period
                == spec_period(s@) && days@ =~= spec_days(s@)),
            !wf_schedule(s@) ==> (r.guts matches SectionDataGuts::Bad(orig) && orig@ == s@),
    {
        match SectionDataGuts::try_good_from_str(s) {
            Result::Ok(guts) => SectionData { guts },
            Result::Err(_) => SectionData { guts: SectionDataGuts::Bad(s.to_owned()) },
        }
    }
}

} // verus!
