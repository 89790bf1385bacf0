//! Names of the files that speech segments are written to.
use vstd::prelude::*;

verus! {

/// The decimal digit `d` (taken modulo 10) as text.
pub open spec fn digit_text(d: nat) -> Seq<char> {
    let d = d % 10;
    if d == 0 {
        "0"@
    } else if d == 1 {
        "1"@
    } else if d == 2 {
        "2"@
    } else if d == 3 {
        "3"@
    } else if d == 4 {
        "4"@
    } else if d == 5 {
        "5"@
    } else if d == 6 {
        "6"@
    } else if d == 7 {
        "7"@
    } else if d == 8 {
        "8"@
    } else {
        "9"@
    }
}

/// The decimal notation of `n`, without sign or leading zeros, as `Display` writes it.
pub open spec fn decimal(n: nat) -> Seq<char>
    decreases n,
{
    if n < 10 {
        digit_text(n)
    } else {
        decimal(n / 10) + digit_text(n % 10)
    }
}

/// The name of a speech segment's file: `vad_<timestamp>_<segment>.wav`.
pub open spec fn segment_name(timestamp_ms: nat, segment: nat) -> Seq<char> {
    "vad_"@ + decimal(timestamp_ms) + "_"@ + decimal(segment) + ".wav"@
}

fn digit_str(d: u128) -> (r: &'static str)
    requires
        d < 10,
    ensures
        r@ == digit_text(d as nat),
{
    if d == 0 {
        "0"
    } else if d == 1 {
        "1"
    } else if d == 2 {
        "2"
    } else if d == 3 {
        "3"
    } else if d == 4 {
        "4"
    } else if d == 5 {
        "5"
    } else if d == 6 {
        "6"
    } else if d == 7 {
        "7"
    } else if d == 8 {
        "8"
    } else {
        "9"
    }
}

/// The decimal notation of `n`.
pub fn decimal_string(n: u128) -> (r: String)
    ensures
        r@ == decimal(n as nat),
{
    let mut cur = n;
    let mut r = String::new();
    loop
        invariant_except_break
            decimal(n as nat) == decimal(cur as nat) + r@,
        ensures
            decimal(n as nat) == r@,
        decreases cur,
    {
        let d = cur % 10;
        let mut t = String::from_str(digit_str(d));
        t.append(r.as_str());
        r = t;
        if cur < 10 {
            assert(decimal(n as nat) =~= r@);
            break ;
        }
        assert(decimal(n as nat) =~= decimal((cur / 10) as nat) + r@);
        cur = cur / 10;
    }
    r
}

/// The file name of a speech segment, from the capture time in milliseconds since the
/// Unix epoch and the segment's number.
pub fn segment_file_name(timestamp_ms: u128, segment: u32) -> (r: String)
    ensures
        r@ == segment_name(timestamp_ms as nat, segment as nat),
{
    let mut name = String::from_str("vad_");
    let ts = decimal_string(timestamp_ms);
    name.append(ts.as_str());
    name.append("_");
    let seg = decimal_string(segment as u128);
    name.append(seg.as_str());
    name.append(".wav");
    name
}

/// The character of the decimal digit `d` (taken modulo 10).
pub open spec fn digit_char(d: nat) -> char {
    let d = d % 10;
    if d == 0 {
        '0'
    } else if d == 1 {
        '1'
    } else if d == 2 {
        '2'
    } else if d == 3 {
        '3'
    } else if d == 4 {
        '4'
    } else if d == 5 {
        '5'
    } else if d == 6 {
        '6'
    } else if d == 7 {
        '7'
    } else if d == 8 {
        '8'
    } else {
        '9'
    }
}

/// Each digit is one character, neither `_` nor `.`, and different digits differ.
pub proof fn lemma_digit_text(d: nat, e: nat)
    ensures
        digit_text(d).len() == 1,
        digit_text(d)[0] != '_',
        digit_text(d)[0] != '.',
        digit_text(d) == digit_text(e) ==> d % 10 == e % 10,
{
    reveal_strlit("0");
    reveal_strlit("1");
    reveal_strlit("2");
    reveal_strlit("3");
    reveal_strlit("4");
    reveal_strlit("5");
    reveal_strlit("6");
    reveal_strlit("7");
    reveal_strlit("8");
    reveal_strlit("9");
    assert(digit_text(d) =~= seq![digit_char(d)]);
    assert(digit_text(e) =~= seq![digit_char(e)]);
    if digit_text(d) == digit_text(e) {
        assert(digit_char(d) == digit_text(d)[0]);
        assert(digit_char(d) == digit_char(e));
    }
}

/// Decimal notation is never empty and holds only digits (no `_`, no `.`).
pub proof fn lemma_decimal_chars(n: nat)
    ensures
        decimal(n).len() >= 1,
        forall|i: int| 0 <= i < decimal(n).len() ==> #[trigger] decimal(n)[i] != '_' && decimal(
            n,
        )[i] != '.',
    decreases n,
{
    lemma_digit_text(n, n);
    if n >= 10 {
        lemma_decimal_chars(n / 10);
        lemma_digit_text(n % 10, n % 10);
        let a = decimal(n / 10);
        let b = digit_text(n % 10);
        assert forall|i: int| 0 <= i < decimal(n).len() implies #[trigger] decimal(n)[i] != '_'
            && decimal(n)[i] != '.' by {
            if i < a.len() {
                assert(decimal(n)[i] == a[i]);
            } else {
                assert(decimal(n)[i] == b[i - a.len()]);
            }
        }
    }
}

/// Different numbers have different decimal notations.
pub proof fn lemma_decimal_injective(a: nat, b: nat)
    requires
        decimal(a) == decimal(b),
    ensures
        a == b,
    decreases a,
{
    lemma_digit_text(a, b);
    if a < 10 && b < 10 {
        assert(decimal(a) == digit_text(a));
        assert(decimal(b) == digit_text(b));
    } else if a >= 10 && b >= 10 {
        lemma_decimal_chars(a / 10);
        lemma_decimal_chars(b / 10);
        lemma_digit_text(a % 10, b % 10);
        lemma_digit_text(b % 10, a % 10);
        let (pa, pb) = (decimal(a / 10), decimal(b / 10));
        let (da, db) = (digit_text(a % 10), digit_text(b % 10));
        assert(decimal(a) == pa + da);
        assert(decimal(b) == pb + db);
        assert(pa.len() == pb.len());
        assert(pa =~= decimal(a).subrange(0, pa.len() as int));
        assert(pb =~= decimal(b).subrange(0, pb.len() as int));
        assert(da =~= decimal(a).subrange(pa.len() as int, decimal(a).len() as int));
        assert(db =~= decimal(b).subrange(pb.len() as int, decimal(b).len() as int));
        lemma_decimal_injective(a / 10, b / 10);
    } else if a < 10 {
        assert(decimal(a) == digit_text(a));
        lemma_decimal_chars(b / 10);
        lemma_digit_text(b % 10, b % 10);
        assert(decimal(b) == decimal(b / 10) + digit_text(b % 10));
    } else {
        assert(decimal(b) == digit_text(b));
        lemma_digit_text(b, b);
        lemma_decimal_chars(a / 10);
        lemma_digit_text(a % 10, a % 10);
        assert(decimal(a) == decimal(a / 10) + digit_text(a % 10));
    }
}

/// Two segment files share a name only when both the capture time and the segment
/// number are the same: segments numbered apart never overwrite each other.
pub proof fn lemma_segment_name_injective(t1: nat, s1: nat, t2: nat, s2: nat)
    requires
        segment_name(t1, s1) == segment_name(t2, s2),
    ensures
        t1 == t2,
        s1 == s2,
{
    reveal_strlit("vad_");
    reveal_strlit("_");
    reveal_strlit(".wav");
    lemma_decimal_chars(t1);
    lemma_decimal_chars(t2);
    lemma_decimal_chars(s1);
    lemma_decimal_chars(s2);
    let (d1, d2, e1, e2) = (decimal(t1), decimal(t2), decimal(s1), decimal(s2));
    let x = segment_name(t1, s1);
    let m1 = d1 + "_"@ + e1;
    let m2 = d2 + "_"@ + e2;
    assert(m1 =~= x.subrange(4, x.len() - 4));
    assert(m2 =~= x.subrange(4, x.len() - 4));
    assert(m1[d1.len() as int] == '_');
    assert(m2[d2.len() as int] == '_');
    if d1.len() < d2.len() {
        assert(m2[d1.len() as int] == d2[d1.len() as int]);
    } else if d2.len() < d1.len() {
        assert(m1[d2.len() as int] == d1[d2.len() as int]);
    }
    assert(d1 =~= m1.subrange(0, d1.len() as int));
    assert(d2 =~= m2.subrange(0, d2.len() as int));
    assert(e1 =~= m1.subrange(d1.len() as int + 1, m1.len() as int));
    assert(e2 =~= m2.subrange(d2.len() as int + 1, m2.len() as int));
    lemma_decimal_injective(t1, t2);
    lemma_decimal_injective(s1, s2);
}

} // verus!
