//! The work-schedule bitmap codec.
//!
//! A weekly recurrence pattern lives in one byte: bit *i* of the low seven
//! bits marks weekday *i* (Monday = 0) as a workday, bit 7 marks the schedule
//! as flexible. Expanding the pattern for one month freezes it into a 32-bit
//! bitmap: bit *i* marks day *i + 1* of that month, bit 31 carries the
//! flexibility flag. The expansion is a snapshot — editing the weekly pattern
//! later never alters an already expanded month.

use vstd::prelude::*;
use crate::date::{Date, Weekday, spec_days_in_month, days_in_month};

verus! {

/// Whether bit `i` of the low seven bits of `bits` is set: weekday `i` is a
/// scheduled workday.
pub open spec fn weekly_bit(bits: u8, i: int) -> bool {
    0 <= i < 7 && (bits >> (i as u8)) & 1 == 1
}

/// Whether bit 7 of `bits` is set: the schedule is flexible.
pub open spec fn flexible_bit(bits: u8) -> bool {
    bits & 0x80 == 0x80
}

/// The weekday-membership byte that a sequence of weekdays folds to, one bit
/// per weekday, duplicates collapsing.
pub open spec fn encode_bits(ws: Seq<Weekday>) -> u8
    decreases ws.len(),
{
    if ws.len() == 0 {
        0
    } else {
        encode_bits(ws.drop_last()) | (1u8 << (ws.last().spec_days_from_monday() as u8))
    }
}

/// The first `n` weekdays, in Monday-to-Sunday order, whose bit is set in
/// `bits`.
pub open spec fn selected_weekdays(bits: u8, n: int) -> Seq<Weekday>
    decreases n,
{
    if n <= 0 {
        Seq::empty()
    } else {
        selected_weekdays(bits, n - 1) + (if weekly_bit(bits, n - 1) {
            seq![Weekday::spec_from_days_from_monday(n - 1)]
        } else {
            Seq::empty()
        })
    }
}

/// A weekly recurrence pattern packed into one byte.
#[derive(Debug, Clone, Copy, PartialEq, Eq, Structural)]
pub struct WeekBasedSchedule(pub u8);

proof fn lemma_or_bit_effect(b: u8, k: u8, j: int)
    requires
        k < 7,
    ensures
        weekly_bit(b | (1u8 << k), j) <==> (weekly_bit(b, j) || j == k),
        flexible_bit(b | (1u8 << k)) == flexible_bit(b),
{
    if 0 <= j < 7 {
        let ju = j as u8;
        assert(((b | (1u8 << k)) >> ju) & 1 == 1 <==> ((b >> ju) & 1 == 1 || ju == k))
            by (bit_vector)
            requires
                k < 7,
                ju < 7,
        ;
    }
    assert((b | (1u8 << k)) & 0x80 == b & 0x80) by (bit_vector)
        requires
            k < 7,
    ;
}

/// Which bits `encode_bits` sets: exactly the weekdays that occur in the
/// sequence, and never the flexibility bit.
pub proof fn lemma_encode_bits_membership(ws: Seq<Weekday>)
    ensures
        forall|j: int|
            weekly_bit(encode_bits(ws), j) <==> (exists|i: int|
                0 <= i < ws.len() && ws[i].spec_days_from_monday() == j),
        !flexible_bit(encode_bits(ws)),
    decreases ws.len(),
{
    if ws.len() == 0 {
        assert(forall|j: int| !weekly_bit(0u8, j)) by {
            assert(forall|ju: u8| ju < 7 ==> #[trigger] ((0u8 >> ju) & 1) == 0) by (bit_vector);
        }
        assert(0u8 & 0x80 == 0) by (bit_vector);
    } else {
        let head = ws.drop_last();
        let k = ws.last().spec_days_from_monday();
        lemma_encode_bits_membership(head);
        assert forall|j: int|
            weekly_bit(encode_bits(ws), j) <==> (exists|i: int|
                0 <= i < ws.len() && ws[i].spec_days_from_monday() == j) by {
            lemma_or_bit_effect(encode_bits(head), k as u8, j);
            if weekly_bit(encode_bits(ws), j) {
                if j == k {
                    assert(ws[ws.len() - 1].spec_days_from_monday() == j);
                } else {
                    let i = choose|i: int|
                        0 <= i < head.len() && head[i].spec_days_from_monday() == j;
                    assert(ws[i].spec_days_from_monday() == j);
                }
            }
            if exists|i: int| 0 <= i < ws.len() && ws[i].spec_days_from_monday() == j {
                let i = choose|i: int| 0 <= i < ws.len() && ws[i].spec_days_from_monday() == j;
                if i < ws.len() - 1 {
                    assert(head[i].spec_days_from_monday() == j);
                }
            }
        }
        lemma_or_bit_effect(encode_bits(head), k as u8, 0);
    }
}

impl WeekBasedSchedule {
    /// Pack a weekly pattern: one bit per listed weekday, plus the
    /// flexibility flag in bit 7. Listing a weekday twice is harmless.
    pub fn new(weekdays: &[Weekday], flexible: bool) -> (r: Self)
        ensures
            r.0 == (encode_bits(weekdays@) | (if flexible {
                0x80u8
            } else {
                0u8
            })),
            flexible_bit(r.0) == flexible,
            forall|j: int|
                weekly_bit(r.0, j) <==> (exists|i: int|
                    0 <= i < weekdays@.len() && weekdays@[i].spec_days_from_monday() == j),
    {
        let n = weekdays.len();
        let mut acc: u8 = 0;
        let mut i: usize = 0;
        assert(weekdays@.take(0) =~= Seq::<Weekday>::empty());
        while i < n
            invariant
                i <= n,
                n == weekdays@.len(),
                acc == encode_bits(weekdays@.take(i as int)),
            decreases n - i,
        {
            let w = weekdays[i];
            acc = acc | (1u8 << w.number_days_from_monday());
            proof {
                let t = weekdays@.take(i + 1);
                assert(t.drop_last() =~= weekdays@.take(i as int));
                assert(t.last() == weekdays@[i as int]);
            }
            i = i + 1;
        }
        assert(weekdays@.take(n as int) =~= weekdays@);
        let bits = if flexible {
            acc | 0x80u8
        } else {
            acc
        };
        proof {
            lemma_encode_bits_membership(weekdays@);
            let e = encode_bits(weekdays@);
            if flexible {
                assert((e | 0x80u8) & 0x80 == 0x80) by (bit_vector);
            } else {
                assert(e | 0u8 == e) by (bit_vector);
            }
            assert forall|j: int| weekly_bit(bits, j) <==> weekly_bit(e, j) by {
                if 0 <= j < 7 {
                    let ju = j as u8;
                    if flexible {
                        assert(((e | 0x80u8) >> ju) & 1 == (e >> ju) & 1) by (bit_vector)
                            requires
                                ju < 7,
                        ;
                    }
                }
            }
            assert forall|j: int|
                weekly_bit(bits, j) <==> (exists|i: int|
                    0 <= i < weekdays@.len() && weekdays@[i].spec_days_from_monday() == j) by {
                assert(weekly_bit(e, j) <==> (exists|i: int|
                    0 <= i < weekdays@.len() && weekdays@[i].spec_days_from_monday() == j));
            }
        }
        WeekBasedSchedule(bits)
    }

    /// Whether the flexibility flag is set.
    pub fn is_flexible(&self) -> (r: bool)
        ensures
            r == flexible_bit(self.0),
    {
        let b = self.0;
        proof {
            assert((b & 0x80 > 0) == (b & 0x80 == 0x80)) by (bit_vector);
        }
        b & 0x80 > 0
    }

    /// The scheduled weekdays in Monday-to-Sunday order, regardless of the
    /// order they were packed in.
    pub fn to_weekdays(self) -> (r: Vec<Weekday>)
        ensures
            r@ == selected_weekdays(self.0, 7),
    {
        let mut r: Vec<Weekday> = Vec::new();
        let mut i: u8 = 0;
        while i < 7
            invariant
                i <= 7,
                r@ == selected_weekdays(self.0, i as int),
            decreases 7 - i,
        {
            let set = (self.0 >> i) & 1 == 1;
            if set {
                r.push(Weekday::from_days_from_monday(i));
            }
            proof {
                let s1 = selected_weekdays(self.0, i as int);
                let s2 = selected_weekdays(self.0, i + 1);
                if set {
                    assert(s2 =~= s1 + seq![Weekday::spec_from_days_from_monday(i as int)]);
                } else {
                    assert(s2 =~= s1);
                }
            }
            i = i + 1;
        }
        r
    }

    /// Unpack a weekly pattern from its stored form; only the low byte of
    /// the stored integer carries the pattern.
    pub fn from_bitmap(v: i32) -> (r: Self)
        ensures
            r.0 as int == (v as int) % 256,
    {
        let u = reinterpret_unsigned(v);
        proof {
            vstd::arithmetic::div_mod::lemma_mod_multiples_vanish(0x1000000, v as int, 256);
        }
        WeekBasedSchedule((u % 256) as u8)
    }
}

/// The stored form of a 32-bit value: the unique `i32` with the same bit
/// pattern, as an integer.
pub open spec fn spec_as_stored(u: u32) -> int {
    if u < 0x80000000 {
        u as int
    } else {
        u as int - 0x100000000
    }
}

/// The 32-bit value a stored integer carries: the unique `u32` with the same
/// bit pattern, as an integer.
pub open spec fn spec_from_stored(v: i32) -> int {
    if v >= 0 {
        v as int
    } else {
        v as int + 0x100000000
    }
}

/// Recover the unsigned 32-bit value a stored integer carries.
fn reinterpret_unsigned(v: i32) -> (r: u32)
    ensures
        r as int == spec_from_stored(v),
{
    if v >= 0 {
        v as u32
    } else {
        ((v + 0x40000000) + 0x40000000) as u32 + 0x80000000
    }
}

/// Store an unsigned 32-bit value as a signed one of the same bit pattern.
fn reinterpret_signed(u: u32) -> (r: i32)
    ensures
        r as int == spec_as_stored(u),
{
    if u < 0x80000000 {
        u as i32
    } else {
        ((u - 0x80000000) as i32 - 0x40000000) - 0x40000000
    }
}

/// Whether bit `i` of a monthly bitmap is set.
pub open spec fn log_bit(bits: u32, i: int) -> bool {
    0 <= i < 32 && (bits >> (i as u32)) & 1 == 1
}

proof fn lemma_or_bit32_effect(b: u32, k: u32, j: int)
    requires
        k < 32,
    ensures
        log_bit(b | (1u32 << k), j) <==> (log_bit(b, j) || j == k),
{
    if 0 <= j < 32 {
        let ju = j as u32;
        assert(((b | (1u32 << k)) >> ju) & 1 == 1 <==> ((b >> ju) & 1 == 1 || ju == k))
            by (bit_vector)
            requires
                k < 32,
                ju < 32,
        ;
    }
}

/// A weekly pattern expanded for one concrete month, packed into 32 bits.
#[derive(Debug, Clone, Copy, PartialEq, Eq, Structural)]
pub struct ScheduleLog(pub u32);

impl ScheduleLog {
    /// Unpack a monthly bitmap from its stored form.
    pub fn from_bitmap(v: i32) -> (r: Self)
        ensures
            r.0 as int == spec_from_stored(v),
    {
        ScheduleLog(reinterpret_unsigned(v))
    }

    /// The stored form of the monthly bitmap.
    pub fn to_bitmap(&self) -> (r: i32)
        ensures
            r as int == spec_as_stored(self.0),
    {
        reinterpret_signed(self.0)
    }

    /// Freeze a weekly pattern into the month of `date`: bit `i` is set
    /// exactly when day `i + 1` of that month falls on a scheduled weekday,
    /// bits beyond the month's length stay clear, and bit 31 copies the
    /// flexibility flag.
    pub fn from_weekly(schedule: WeekBasedSchedule, date: Date) -> (r: Self)
        requires
            date.wf(),
        ensures
            forall|i: int|
                0 <= i < spec_days_in_month(date.year as int, date.month as int) ==> (log_bit(
                    r.0,
                    i,
                ) <==> weekly_bit(
                    schedule.0,
                    (i + (Date { year: date.year, month: date.month, day: 1 }).spec_weekday()) % 7,
                )),
            forall|i: int|
                spec_days_in_month(date.year as int, date.month as int) <= i < 31 ==> !log_bit(
                    r.0,
                    i,
                ),
            log_bit(r.0, 31) == flexible_bit(schedule.0),
    {
        let first = Date { year: date.year, month: date.month, day: 1 };
        let fw = first.weekday().number_days_from_monday();
        let dim = days_in_month(date.year, date.month);
        let s = schedule.0;
        let mut acc: u32 = 0;
        let mut i: u8 = 0;
        proof {
            assert(forall|ju: u32| ju < 32 ==> #[trigger] ((0u32 >> ju) & 1) == 0) by (bit_vector);
        }
        while i < dim
            invariant
                i <= dim,
                fw < 7,
                fw as int == first.spec_weekday(),
                dim as int == spec_days_in_month(date.year as int, date.month as int),
                dim <= 31,
                s == schedule.0,
                forall|j: int|
                    0 <= j < i ==> (log_bit(acc, j) <==> weekly_bit(s, (j + fw) % 7)),
                forall|j: int| i <= j < 32 ==> !log_bit(acc, j),
            decreases dim - i,
        {
            let wd = (i + fw) % 7;
            let workday = (s >> wd) & 1 == 1;
            let prev = acc;
            if workday {
                acc = acc | (1u32 << (i as u32));
            }
            proof {
                assert(wd as int == (i as int + fw as int) % 7);
                if workday {
                    assert forall|j: int|
                        0 <= j < i + 1 implies (log_bit(acc, j) <==> weekly_bit(
                        s,
                        (j + fw) % 7,
                    )) by {
                        lemma_or_bit32_effect(prev, i as u32, j);
                    }
                    assert forall|j: int| i + 1 <= j < 32 implies !log_bit(acc, j) by {
                        lemma_or_bit32_effect(prev, i as u32, j);
                    }
                }
            }
            i = i + 1;
        }
        let flexible = schedule.is_flexible();
        let bits = if flexible {
            acc | 0x8000_0000u32
        } else {
            acc
        };
        proof {
            if flexible {
                assert forall|j: int| 0 <= j < 31 implies (log_bit(bits, j) <==> log_bit(
                    acc,
                    j,
                )) by {
                    let ju = j as u32;
                    assert(((acc | 0x8000_0000u32) >> ju) & 1 == (acc >> ju) & 1) by (bit_vector)
                        requires
                            ju < 31,
                    ;
                }
                assert(((acc | 0x8000_0000u32) >> 31u32) & 1 == 1) by (bit_vector);
            }
        }
        ScheduleLog(bits)
    }

    /// Whether day `ord` (1-based) of the expanded month is a workday. The
    /// caller keeps `ord` within the month's length; bits beyond it are
    /// always clear from construction.
    pub fn is_workday(&self, ord: u8) -> (r: bool)
        requires
            1 <= ord <= 32,
        ensures
            r == log_bit(self.0, ord - 1),
    {
        let b = self.0;
        let sh = (ord - 1) as u32;
        proof {
            assert((b & (1u32 << sh) != 0) == ((b >> sh) & 1 == 1)) by (bit_vector)
                requires
                    sh < 32,
            ;
        }
        b & (1u32 << sh) != 0
    }
}

proof fn lemma_weekday_index_injective()
    ensures
        forall|w1: Weekday, w2: Weekday|
            w1.spec_days_from_monday() == w2.spec_days_from_monday() ==> w1 == w2,
        forall|w: Weekday| 0 <= #[trigger] w.spec_days_from_monday() < 7,
        forall|i: int|
            0 <= i < 7 ==> #[trigger] Weekday::spec_from_days_from_monday(
                i,
            ).spec_days_from_monday() == i,
{
}

proof fn lemma_selected_weekdays_props(bits: u8, n: int)
    requires
        0 <= n <= 7,
    ensures
        forall|w: Weekday|
            #[trigger] selected_weekdays(bits, n).contains(w) <==> (w.spec_days_from_monday() < n
                && weekly_bit(bits, w.spec_days_from_monday())),
        forall|a: int, b: int|
            0 <= a < b < selected_weekdays(bits, n).len() ==> #[trigger] selected_weekdays(
                bits,
                n,
            )[a].spec_days_from_monday() < #[trigger] selected_weekdays(
                bits,
                n,
            )[b].spec_days_from_monday(),
        forall|a: int|
            0 <= a < selected_weekdays(bits, n).len() ==> #[trigger] selected_weekdays(
                bits,
                n,
            )[a].spec_days_from_monday() < n,
    decreases n,
{
    lemma_weekday_index_injective();
    if n > 0 {
        lemma_selected_weekdays_props(bits, n - 1);
        let s1 = selected_weekdays(bits, n - 1);
        let s = selected_weekdays(bits, n);
        if weekly_bit(bits, n - 1) {
            let wn = Weekday::spec_from_days_from_monday(n - 1);
            assert(s == s1 + seq![wn]);
            assert(s[s.len() - 1] == wn);
            assert(forall|a: int| 0 <= a < s1.len() ==> s[a] == s1[a]);
            assert forall|w: Weekday| #[trigger] s.contains(w) implies (w.spec_days_from_monday()
                < n && weekly_bit(bits, w.spec_days_from_monday())) by {
                let a = choose|a: int| 0 <= a < s.len() && s[a] == w;
                if a < s.len() - 1 {
                    assert(s1.contains(w));
                }
            }
            assert forall|w: Weekday|
                (w.spec_days_from_monday() < n && weekly_bit(
                    bits,
                    w.spec_days_from_monday(),
                )) implies #[trigger] s.contains(w) by {
                if w.spec_days_from_monday() < n - 1 {
                    assert(s1.contains(w));
                    let a = choose|a: int| 0 <= a < s1.len() && s1[a] == w;
                    assert(s[a] == w);
                } else {
                    assert(w == wn);
                    assert(s[s.len() - 1] == w);
                }
            }
        } else {
            assert(s == s1 + Seq::<Weekday>::empty());
            assert(s =~= s1);
            assert forall|w: Weekday| #[trigger] s.contains(w) implies (w.spec_days_from_monday()
                < n && weekly_bit(bits, w.spec_days_from_monday())) by {
                assert(s1.contains(w));
            }
            assert forall|w: Weekday|
                (w.spec_days_from_monday() < n && weekly_bit(
                    bits,
                    w.spec_days_from_monday(),
                )) implies #[trigger] s.contains(w) by {
                if w.spec_days_from_monday() == n - 1 {
                    assert(false);
                } else {
                    assert(s1.contains(w));
                }
            }
        }
    }
}

/// Round trip of the weekly codec: decoding an encoded pattern yields
/// exactly the packed weekdays, in Monday-to-Sunday order with duplicates
/// collapsed, together with the packed flexibility flag. `bits` is what
/// `WeekBasedSchedule::new` builds from `ws` and `flexible`;
/// `selected_weekdays(bits, 7)` is what `to_weekdays` returns for it.
pub proof fn lemma_weekly_round_trip(ws: Seq<Weekday>, flexible: bool, bits: u8)
    requires
        bits == (encode_bits(ws) | (if flexible {
            0x80u8
        } else {
            0u8
        })),
    ensures
        flexible_bit(bits) == flexible,
        forall|w: Weekday| #[trigger] selected_weekdays(bits, 7).contains(w) <==> ws.contains(w),
        forall|a: int, b: int|
            0 <= a < b < selected_weekdays(bits, 7).len() ==> #[trigger] selected_weekdays(
                bits,
                7,
            )[a].spec_days_from_monday() < #[trigger] selected_weekdays(
                bits,
                7,
            )[b].spec_days_from_monday(),
{
    lemma_encode_bits_membership(ws);
    lemma_weekday_index_injective();
    let e = encode_bits(ws);
    if flexible {
        assert((e | 0x80u8) & 0x80 == 0x80) by (bit_vector);
    } else {
        assert(e | 0u8 == e) by (bit_vector);
    }
    assert forall|j: int| weekly_bit(bits, j) <==> weekly_bit(e, j) by {
        if 0 <= j < 7 {
            let ju = j as u8;
            if flexible {
                assert(((e | 0x80u8) >> ju) & 1 == (e >> ju) & 1) by (bit_vector)
                    requires
                        ju < 7,
                ;
            }
        }
    }
    lemma_selected_weekdays_props(bits, 7);
    assert forall|w: Weekday| #[trigger] selected_weekdays(bits, 7).contains(w) <==> ws.contains(
        w,
    ) by {
        if selected_weekdays(bits, 7).contains(w) {
            let i = choose|i: int|
                0 <= i < ws.len() && ws[i].spec_days_from_monday() == w.spec_days_from_monday();
            assert(ws[i] == w);
        }
        if ws.contains(w) {
            let i = choose|i: int| 0 <= i < ws.len() && ws[i] == w;
            assert(ws[i].spec_days_from_monday() == w.spec_days_from_monday());
            assert(weekly_bit(e, w.spec_days_from_monday()));
        }
    }
}

/// Workday agreement: in a month expanded from a weekly pattern, a day is a
/// workday exactly when its weekday is scheduled in that pattern. `log`
/// carries the in-month bits that `ScheduleLog::from_weekly` builds for the
/// month of `d`.
pub proof fn lemma_is_workday_agrees(weekly: u8, log: u32, d: Date)
    requires
        d.wf(),
        forall|i: int|
            0 <= i < spec_days_in_month(d.year as int, d.month as int) ==> (#[trigger] log_bit(
                log,
                i,
            ) <==> weekly_bit(
                weekly,
                (i + (Date { year: d.year, month: d.month, day: 1 }).spec_weekday()) % 7,
            )),
    ensures
        log_bit(log, d.day - 1) <==> weekly_bit(weekly, d.spec_weekday()),
{
    let first = Date { year: d.year, month: d.month, day: 1 };
    assert(d.spec_day_number() == first.spec_day_number() + d.day - 1);
    vstd::arithmetic::div_mod::lemma_fundamental_div_mod(first.spec_day_number(), 7);
    let q = first.spec_day_number() / 7;
    let fw = first.spec_weekday();
    assert(d.spec_day_number() == 7 * q + (fw + d.day - 1));
    vstd::arithmetic::div_mod::lemma_mod_multiples_vanish(q, fw + d.day - 1, 7);
    assert(d.spec_weekday() == ((d.day - 1) + fw) % 7);
    assert(log_bit(log, d.day - 1) <==> weekly_bit(weekly, ((d.day - 1) + fw) % 7));
}

/// The key a monthly snapshot is stored under: months numbered continuously
/// as `year * 12 + month`.
pub fn month_index(date: &Date) -> (r: i32)
    requires
        date.wf(),
    ensures
        r as int == date.year * 12 + date.month,
{
    date.year * 12 + date.month as i32
}

} // verus!
