//! Durations in the Gateway API's notation, such as `10s`, `500ms` or `1m30s`.
use crate::text;
use crate::text::chars_of;
use vstd::prelude::*;

verus! {

/// The number of leading digits.
pub open spec fn leading_digits(s: Seq<char>) -> nat
    decreases s.len(),
{
    if s.len() == 0 || !text::is_digit(s[0]) {
        0
    } else {
        1 + leading_digits(s.drop_first())
    }
}

/// A unit of time.
#[derive(Clone, Copy, Debug, PartialEq, Eq, Structural)]
pub enum TimeUnit {
    Hours,
    Minutes,
    Seconds,
    Milliseconds,
}

impl TimeUnit {
    /// The length of the unit's name.
    pub open spec fn name_len(self) -> nat {
        match self {
            TimeUnit::Milliseconds => 2,
            _ => 1,
        }
    }

    /// The milliseconds that `n` of the unit make.
    pub open spec fn millis(self, n: nat) -> nat {
        match self {
            TimeUnit::Hours => n * 3_600_000,
            TimeUnit::Minutes => n * 60_000,
            TimeUnit::Seconds => n * 1_000,
            TimeUnit::Milliseconds => n,
        }
    }
}

/// The unit that a text starts with.
pub open spec fn leading_unit(s: Seq<char>) -> Option<TimeUnit> {
    if s.len() >= 2 && s[0] == 'm' && s[1] == 's' {
        Some(TimeUnit::Milliseconds)
    } else if s.len() >= 1 && s[0] == 's' {
        Some(TimeUnit::Seconds)
    } else if s.len() >= 1 && s[0] == 'm' {
        Some(TimeUnit::Minutes)
    } else if s.len() >= 1 && s[0] == 'h' {
        Some(TimeUnit::Hours)
    } else {
        None
    }
}

/// The milliseconds of a text of exactly `parts` parts, each of one to five
/// digits and a unit.
pub open spec fn parts_millis(s: Seq<char>, parts: nat) -> Option<nat>
    decreases parts,
{
    if parts == 0 {
        if s.len() == 0 {
            Some(0)
        } else {
            None
        }
    } else {
        let d = leading_digits(s);
        match leading_unit(s.skip(d as int)) {
            Some(u) => if 1 <= d <= 5 {
                match parts_millis(s.skip((d + u.name_len()) as int), (parts - 1) as nat) {
                    Some(rest) => Some(u.millis(text::digits_value(s.take(d as int))) + rest),
                    None => None,
                }
            } else {
                None
            },
            None => None,
        }
    }
}

/// The milliseconds of a duration: one to four parts.
pub open spec fn duration_millis(s: Seq<char>) -> Option<nat> {
    if parts_millis(s, 1) is Some {
        parts_millis(s, 1)
    } else if parts_millis(s, 2) is Some {
        parts_millis(s, 2)
    } else if parts_millis(s, 3) is Some {
        parts_millis(s, 3)
    } else {
        parts_millis(s, 4)
    }
}

proof fn lemma_leading_digits(s: Seq<char>, n: nat)
    requires
        n <= s.len(),
        forall|j: int| 0 <= j < n ==> text::is_digit(#[trigger] s[j]),
        n < s.len() ==> !text::is_digit(s[n as int]),
    ensures
        leading_digits(s) == n,
    decreases s.len(),
{
    if n > 0 {
        let r = s.drop_first();
        assert forall|j: int| 0 <= j < n - 1 implies text::is_digit(#[trigger] r[j]) by {
            assert(text::is_digit(s[j + 1]));
        }
        assert(text::is_digit(s[0]));
        lemma_leading_digits(r, (n - 1) as nat);
    }
}

spec fn pow10(n: nat) -> nat
    decreases n,
{
    if n == 0 {
        1
    } else {
        10 * pow10((n - 1) as nat)
    }
}

proof fn lemma_pow10_monotone(a: nat, b: nat)
    requires
        a <= b,
    ensures
        pow10(a) <= pow10(b),
    decreases b,
{
    if a < b {
        lemma_pow10_monotone(a, (b - 1) as nat);
    }
}

/// One part of a duration at `at`: the position behind it and its
/// milliseconds.
fn parse_part(v: &Vec<char>, at: usize) -> (r: Option<(usize, u64)>)
    requires
        at <= v@.len(),
    ensures
        match r {
            Some((next, ms)) => {
                let s = v@.skip(at as int);
                let d = leading_digits(s);
                &&& at < next <= v@.len()
                &&& 1 <= d <= 5
                &&& leading_unit(s.skip(d as int)) is Some
                &&& next == at + d + leading_unit(s.skip(d as int))->0.name_len()
                &&& ms == leading_unit(s.skip(d as int))->0.millis(text::digits_value(s.take(d as int)))
                &&& ms <= 360_000_000_000
            },
            None => {
                let s = v@.skip(at as int);
                let d = leading_digits(s);
                !(1 <= d <= 5) || leading_unit(s.skip(d as int)) is None
            },
        },
{
    let ghost s = v@.skip(at as int);
    let mut i: usize = at;
    let mut value: u64 = 0;
    while i < v.len() && i - at < 6 && '0' <= v[i] && v[i] <= '9'
        invariant
            at <= i <= v@.len(),
            i - at <= 6,
            s == v@.skip(at as int),
            forall|j: int| 0 <= j < i - at ==> text::is_digit(#[trigger] s[j]),
            value == text::digits_value(s.take(i - at)),
            value < pow10((i - at) as nat),
        decreases v.len() - i,
    {
        proof {
            reveal_with_fuel(pow10, 7);
            assert(s.take(i + 1 - at).drop_last() =~= s.take(i - at));
            assert(s.take(i + 1 - at).last() == v@[i as int]);
        }
        let digit: u64 = (v[i] as u32 - '0' as u32) as u64;
        value = 10 * value + digit;
        i += 1;
    }
    let d: usize = i - at;
    proof {
        if d < 6 {
            lemma_leading_digits(s, d as nat);
        } else {
            lemma_leading_at_least(s, 6);
        }
        assert(s.skip(d as int) =~= v@.skip(i as int));
    }
    if d < 1 || d > 5 {
        return None;
    }
    proof {
        reveal_with_fuel(pow10, 7);
        lemma_pow10_monotone(d as nat, 5);
        let r = s.skip(d as int);
        assert(r.len() == v@.len() - i);
        assert(r.len() >= 1 ==> r[0] == v@[i as int]);
        assert(r.len() >= 2 ==> r[1] == v@[i + 1]);
    }
    let left: usize = v.len() - i;
    if left >= 2 && v[i] == 'm' && v[i + 1] == 's' {
        Some((i + 2, value))
    } else if left >= 1 && v[i] == 's' {
        Some((i + 1, value * 1_000))
    } else if left >= 1 && v[i] == 'm' {
        Some((i + 1, value * 60_000))
    } else if left >= 1 && v[i] == 'h' {
        Some((i + 1, value * 3_600_000))
    } else {
        None
    }
}

proof fn lemma_leading_at_least(s: Seq<char>, n: nat)
    requires
        n <= s.len(),
        forall|j: int| 0 <= j < n ==> text::is_digit(#[trigger] s[j]),
    ensures
        leading_digits(s) >= n,
    decreases s.len(),
{
    if n > 0 {
        let r = s.drop_first();
        assert forall|j: int| 0 <= j < n - 1 implies text::is_digit(#[trigger] r[j]) by {
            assert(text::is_digit(s[j + 1]));
        }
        assert(text::is_digit(s[0]));
        lemma_leading_at_least(r, (n - 1) as nat);
    }
}

/// The rest of a duration that holds at most `parts` parts.
spec fn up_to(s: Seq<char>, parts: nat) -> Option<nat>
    decreases parts,
{
    if s.len() == 0 {
        Some(0)
    } else if parts == 0 {
        None
    } else {
        let d = leading_digits(s);
        match leading_unit(s.skip(d as int)) {
            Some(u) => if 1 <= d <= 5 {
                match up_to(s.skip((d + u.name_len()) as int), (parts - 1) as nat) {
                    Some(rest) => Some(u.millis(text::digits_value(s.take(d as int))) + rest),
                    None => None,
                }
            } else {
                None
            },
            None => None,
        }
    }
}

proof fn lemma_up_to(s: Seq<char>, n: nat)
    ensures
        parts_millis(s, n) is Some ==> up_to(s, n) == parts_millis(s, n),
        up_to(s, n) is Some ==> exists|k: nat|
            k <= n && #[trigger] parts_millis(s, k) == up_to(s, n),
        parts_millis(Seq::empty(), n) is Some ==> n == 0,
    decreases n,
{
    assert(leading_digits(Seq::<char>::empty()) == 0);
    if n == 0 {
        assert(parts_millis(s, 0) is Some ==> s.len() == 0);
        if s.len() == 0 {
            assert(parts_millis(s, 0) == Some(0nat));
        }
    } else {
        let d = leading_digits(s);
        if s.len() == 0 {
            assert(d == 0);
            assert(parts_millis(s, 0) == Some(0nat));
        }
        match leading_unit(s.skip(d as int)) {
            Some(u) => {
                let rest = s.skip((d + u.name_len()) as int);
                lemma_up_to(rest, (n - 1) as nat);
                if s.len() > 0 && up_to(s, n) is Some {
                    let k = choose|k: nat|
                        k <= n - 1 && #[trigger] parts_millis(rest, k) == up_to(rest, (n - 1) as nat);
                    assert(parts_millis(s, k + 1) == up_to(s, n));
                }
            },
            None => {},
        }
    }
}

proof fn lemma_up_to_monotone(s: Seq<char>, n: nat)
    requires
        up_to(s, n) is Some,
    ensures
        up_to(s, n + 1) == up_to(s, n),
    decreases n,
{
    if s.len() > 0 {
        let d = leading_digits(s);
        match leading_unit(s.skip(d as int)) {
            Some(u) => {
                lemma_up_to_monotone(s.skip((d + u.name_len()) as int), (n - 1) as nat);
            },
            None => {},
        }
    }
}

proof fn lemma_duration(s: Seq<char>)
    ensures
        s.len() > 0 ==> duration_millis(s) == up_to(s, 4),
        s.len() == 0 ==> duration_millis(s) is None,
{
    lemma_up_to(s, 1);
    lemma_up_to(s, 2);
    lemma_up_to(s, 3);
    lemma_up_to(s, 4);
    if s.len() == 0 {
        assert(s =~= Seq::empty());
    } else {
        if up_to(s, 1) is Some {
            lemma_up_to_monotone(s, 1);
        }
        if up_to(s, 2) is Some {
            lemma_up_to_monotone(s, 2);
        }
        if up_to(s, 3) is Some {
            lemma_up_to_monotone(s, 3);
        }
        if up_to(s, 4) is Some {
            let k = choose|k: nat| k <= 4 && #[trigger] parts_millis(s, k) == up_to(s, 4);
            assert(parts_millis(s, 0) is None);
            assert(k == 1 || k == 2 || k == 3 || k == 4);
        }
    }
}

/// The milliseconds of a duration such as `10s`, `500ms` or `1m`: one to four
/// parts, each of one to five digits and one of the units `h`, `m`, `s` and
/// `ms`. Any other text is no duration.
pub fn parse_duration(s: &str) -> (r: Option<u64>)
    ensures
        match r {
            Some(ms) => duration_millis(s@) == Some(ms as nat),
            None => duration_millis(s@) is None,
        },
{
    let v = chars_of(s);
    proof {
        lemma_duration(s@);
    }
    if v.len() == 0 {
        return None;
    }
    let mut at: usize = 0;
    let mut total: u64 = 0;
    let mut parts: u64 = 0;
    proof {
        assert(v@.skip(0) =~= s@);
    }
    while at < v.len() && parts < 4
        invariant
            at <= v@.len(),
            parts <= 4,
            v@ == s@,
            total <= parts * 360_000_000_000,
            duration_millis(s@) == up_to(s@, 4),
            match up_to(v@.skip(at as int), (4 - parts) as nat) {
                Some(rest) => up_to(s@, 4) == Some(total as nat + rest),
                None => up_to(s@, 4) is None,
            },
        decreases v.len() - at,
    {
        match parse_part(&v, at) {
            None => {
                return None;
            },
            Some((next, ms)) => {
                proof {
                    let cur = v@.skip(at as int);
                    let d = leading_digits(cur);
                    let unit = leading_unit(cur.skip(d as int))->0;
                    assert(cur.skip((d + unit.name_len()) as int) =~= v@.skip(next as int));
                }
                total = total + ms;
                at = next;
                parts = parts + 1;
            },
        }
    }
    if at < v.len() {
        return None;
    }
    Some(total)
}

/// A part of a duration: its digits and its unit.
pub type DurationPart = (Seq<char>, TimeUnit);

/// How a unit is written.
pub open spec fn unit_name(u: TimeUnit) -> Seq<char> {
    match u {
        TimeUnit::Hours => seq!['h'],
        TimeUnit::Minutes => seq!['m'],
        TimeUnit::Seconds => seq!['s'],
        TimeUnit::Milliseconds => seq!['m', 's'],
    }
}

/// Parts as they are written, one after the other.
pub open spec fn written(parts: Seq<DurationPart>) -> Seq<char>
    decreases parts.len(),
{
    if parts.len() == 0 {
        Seq::empty()
    } else {
        parts[0].0 + unit_name(parts[0].1) + written(parts.drop_first())
    }
}

/// Whether every part has one to five digits.
pub open spec fn proper_parts(parts: Seq<DurationPart>) -> bool {
    forall|i: int|
        #![trigger parts[i]]
        0 <= i < parts.len() ==> 1 <= parts[i].0.len() <= 5 && forall|j: int|
            0 <= j < parts[i].0.len() ==> '0' <= #[trigger] parts[i].0[j] <= '9'
}

/// The milliseconds of all parts: an hour has 3600 seconds, a minute 60 and a
/// second 1000 milliseconds.
pub open spec fn total_millis(parts: Seq<DurationPart>) -> nat
    decreases parts.len(),
{
    if parts.len() == 0 {
        0
    } else {
        text::digits_value(parts[0].0) * (match parts[0].1 {
            TimeUnit::Hours => 3600 * 1000,
            TimeUnit::Minutes => 60 * 1000,
            TimeUnit::Seconds => 1000,
            TimeUnit::Milliseconds => 1nat,
        }) + total_millis(parts.drop_first())
    }
}

proof fn lemma_written(parts: Seq<DurationPart>)
    requires
        proper_parts(parts),
    ensures
        parts_millis(written(parts), parts.len()) == Some(total_millis(parts)),
        parts.len() > 0 ==> written(parts).len() > 0 && '0' <= written(parts)[0] <= '9',
    decreases parts.len(),
{
    if parts.len() > 0 {
        let rest = parts.drop_first();
        assert forall|i: int| #![trigger rest[i]] 0 <= i < rest.len() implies 1 <= rest[i].0.len()
            <= 5 && forall|j: int|
            0 <= j < rest[i].0.len() ==> '0' <= #[trigger] rest[i].0[j] <= '9' by {
            assert(rest[i] == parts[i + 1]);
        }
        lemma_written(rest);
        let digits = parts[0].0;
        let name = unit_name(parts[0].1);
        let s = written(parts);
        let d = digits.len();
        assert('0' <= parts[0].0[0] <= '9');
        assert forall|j: int| 0 <= j < d implies text::is_digit(#[trigger] s[j]) by {
            assert(s[j] == parts[0].0[j]);
        }
        assert(s[d as int] == name[0]);
        lemma_leading_digits(s, d);
        assert(s.take(d as int) =~= digits);
        let tail = s.skip(d as int);
        assert(tail =~= name + written(rest));
        assert(tail[0] == name[0]);
        if tail.len() >= 2 && name.len() == 1 {
            assert(tail[1] == written(rest)[0]);
            assert(rest.len() > 0);
        }
        assert(leading_unit(tail) == Some(parts[0].1));
        assert(s.skip((d + name.len()) as int) =~= written(rest));
        assert(parts[0].1.name_len() == name.len());
    }
}

/// One to four parts make a duration, and it lasts as long as all of them
/// together.
pub proof fn law_parts_add_up(parts: Seq<DurationPart>)
    requires
        1 <= parts.len() <= 4,
        proper_parts(parts),
    ensures
        duration_millis(written(parts)) == Some(total_millis(parts)),
{
    lemma_written(parts);
    let s = written(parts);
    lemma_duration(s);
    lemma_up_to(s, parts.len());
    lemma_more_parts(s, parts.len(), 4);
}

proof fn lemma_more_parts(s: Seq<char>, n: nat, m: nat)
    requires
        up_to(s, n) is Some,
        n <= m,
    ensures
        up_to(s, m) == up_to(s, n),
    decreases m,
{
    if n < m {
        lemma_more_parts(s, n, (m - 1) as nat);
        lemma_up_to_monotone(s, (m - 1) as nat);
    }
}

proof fn lemma_digits_lead(s: Seq<char>)
    ensures
        leading_digits(s) <= s.len(),
        forall|j: int| 0 <= j < leading_digits(s) ==> '0' <= #[trigger] s[j] <= '9',
    decreases s.len(),
{
    if s.len() > 0 && text::is_digit(s[0]) {
        let r = s.drop_first();
        lemma_digits_lead(r);
        assert forall|j: int| 0 <= j < leading_digits(s) implies '0' <= #[trigger] s[j] <= '9' by {
            if j > 0 {
                assert(r[j - 1] == s[j]);
            }
        }
    }
}

proof fn lemma_parts_of(s: Seq<char>, n: nat) -> (parts: Seq<DurationPart>)
    requires
        parts_millis(s, n) is Some,
    ensures
        parts.len() == n,
        proper_parts(parts),
        written(parts) == s,
    decreases n,
{
    if n == 0 {
        assert(s =~= Seq::empty());
        Seq::empty()
    } else {
        let d = leading_digits(s);
        lemma_digits_lead(s);
        let tail = s.skip(d as int);
        let u = leading_unit(tail)->0;
        let after = s.skip((d + u.name_len()) as int);
        let rest = lemma_parts_of(after, (n - 1) as nat);
        let first = (s.take(d as int), u);
        let parts = seq![first] + rest;
        assert(parts.drop_first() =~= rest);
        assert(parts[0] == first);
        let name = unit_name(u);
        assert(tail[0] == s[d as int]);
        if name.len() == 2 {
            assert(tail[1] == s[d as int + 1]);
        }
        assert(s =~= s.take(d as int) + name + after);
        assert forall|i: int| #![trigger parts[i]] 0 <= i < parts.len() implies 1
            <= parts[i].0.len() <= 5 && forall|j: int|
            0 <= j < parts[i].0.len() ==> '0' <= #[trigger] parts[i].0[j] <= '9' by {
            if i == 0 {
                assert forall|j: int| 0 <= j < d implies '0' <= #[trigger] parts[0].0[j] <= '9' by {
                    assert(parts[0].0[j] == s[j]);
                }
            } else {
                assert(parts[i] == rest[i - 1]);
            }
        }
        parts
    }
}

/// No other text is a duration.
pub proof fn law_durations_are_parts(s: Seq<char>) -> (parts: Seq<DurationPart>)
    requires
        duration_millis(s) is Some,
    ensures
        1 <= parts.len() <= 4,
        proper_parts(parts),
        written(parts) == s,
{
    if parts_millis(s, 1) is Some {
        lemma_parts_of(s, 1)
    } else if parts_millis(s, 2) is Some {
        lemma_parts_of(s, 2)
    } else if parts_millis(s, 3) is Some {
        lemma_parts_of(s, 3)
    } else {
        lemma_parts_of(s, 4)
    }
}

} // verus!
