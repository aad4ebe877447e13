//! Verified string helpers: equality, decimal rendering for the anonymous
//! type names, the canonical test-function name, and single-character
//! strings.
use vstd::prelude::*;

verus! {

/// Whether two string slices hold the same characters.
pub fn str_eq(a: &str, b: &str) -> (r: bool)
    ensures
        r == (a@ == b@),
{
    let x: String = a.to_owned();
    let y: String = b.to_owned();
    x == y
}

/// The decimal digit characters, lowest first.
pub open spec fn digit_char(d: nat) -> char {
    "0123456789"@[d as int]
}

/// The decimal rendering of `n`, most significant digit first, no leading
/// zeros (a single `0` for zero).
pub open spec fn dec_digits(n: nat) -> Seq<char>
    decreases n,
{
    if n < 10 {
        seq![digit_char(n)]
    } else {
        dec_digits(n / 10).push(digit_char(n % 10))
    }
}

/// The digit characters of `v` read from its end to its start: the digits
/// were collected least significant first.
pub open spec fn rev_digit_seq(v: Seq<usize>) -> Seq<char>
    decreases v.len(),
{
    if v.len() == 0 {
        Seq::empty()
    } else {
        seq![digit_char(v.last() as nat)] + rev_digit_seq(v.drop_last())
    }
}

proof fn lemma_rev_digit_push(v: Seq<usize>, d: usize)
    ensures
        rev_digit_seq(v.push(d)) =~= seq![digit_char(d as nat)] + rev_digit_seq(v),
{
    assert(v.push(d).last() == d);
    assert(v.push(d).drop_last() =~= v);
}

/// Renders `n` in decimal.
pub fn u64_to_dec(n: u64) -> (r: String)
    ensures
        r@ == dec_digits(n as nat),
{
    let digits = "0123456789";
    proof {
        reveal_strlit("0123456789");
    }
    let mut rev: Vec<usize> = Vec::new();
    let mut m: u64 = n;
    // digits of n, least significant first, in `rev`
    while m >= 10
        invariant
            digits@ == "0123456789"@,
            digits@.len() == 10,
            forall|k: int| 0 <= k < rev@.len() ==> 0 <= #[trigger] rev@[k] < 10,
            dec_digits(n as nat) =~= dec_digits(m as nat) + rev_digit_seq(rev@),
        decreases m,
    {
        let d = (m % 10) as usize;
        proof {
            let old_rev = rev@;
            lemma_rev_digit_push(old_rev, d);
            assert(dec_digits(m as nat) == dec_digits((m / 10) as nat).push(
                digit_char((m % 10) as nat),
            ));
            assert(dec_digits((m / 10) as nat).push(digit_char(d as nat)) =~= dec_digits(
                (m / 10) as nat,
            ) + seq![digit_char(d as nat)]);
            assert(dec_digits((m / 10) as nat) + (seq![digit_char(d as nat)] + rev_digit_seq(
                old_rev,
            )) =~= (dec_digits((m / 10) as nat) + seq![digit_char(d as nat)]) + rev_digit_seq(
                old_rev,
            ));
        }
        rev.push(d);
        m = m / 10;
        proof {
            assert(dec_digits(n as nat) =~= dec_digits(m as nat) + rev_digit_seq(rev@));
        }
    }
    let mut out: String = digits.substring_char(m as usize, m as usize + 1).to_owned();
    let mut i: usize = rev.len();
    proof {
        assert(out@ =~= seq![digit_char(m as nat)]);
        assert(dec_digits(m as nat) == seq![digit_char(m as nat)]);
        assert(rev@.take(rev@.len() as int) =~= rev@);
        assert(out@ + rev_digit_seq(rev@.take(i as int)) =~= dec_digits(n as nat));
    }
    while i > 0
        invariant
            digits@ == "0123456789"@,
            digits@.len() == 10,
            i <= rev@.len(),
            forall|k: int| 0 <= k < rev@.len() ==> 0 <= #[trigger] rev@[k] < 10,
            out@ + rev_digit_seq(rev@.take(i as int)) =~= dec_digits(n as nat),
        decreases i,
    {
        i = i - 1;
        let d = rev[i];
        let ghost pre = out@;
        out.append(digits.substring_char(d, d + 1));
        proof {
            assert(out@ =~= pre.push(digit_char(rev@[i as int] as nat)));
            assert(rev_digit_seq(rev@.take(i as int + 1)) =~= seq![
                digit_char(rev@[i as int] as nat),
            ] + rev_digit_seq(rev@.take(i as int))) by {
                assert(rev@.take(i as int + 1).last() == rev@[i as int]);
                assert(rev@.take(i as int + 1).drop_last() =~= rev@.take(i as int));
            }
            assert(out@ + rev_digit_seq(rev@.take(i as int)) =~= dec_digits(n as nat));
        }
    }
    proof {
        assert(rev@.take(0) =~= Seq::<usize>::empty());
        assert(out@ + rev_digit_seq(Seq::<usize>::empty()) =~= out@);
    }
    out
}

/// The name given to the `k`-th anonymous type definition of a generator's
/// lifetime.
pub open spec fn anon_name(k: nat) -> Seq<char> {
    "AnonymousType"@ + dec_digits(k)
}

/// Builds the name of the `k`-th anonymous type definition.
pub fn make_anon_name(k: u64) -> (r: String)
    ensures
        r@ == anon_name(k as nat),
{
    let mut s: String = "AnonymousType".to_owned();
    let digits = u64_to_dec(k);
    s.append(digits.as_str());
    s
}

/// Whether `c` is replaced by an underscore when a test-function name is
/// made canonical: a delimiter or another special character.
pub open spec fn is_special(c: char) -> bool {
    c == '"' || c == ' ' || c == '.' || c == ':' || c == '-' || c == '*' || c == '/' || c == '\\'
        || c == '\n' || c == '\t' || c == '\r'
}

/// The canonical form of a name: every delimiter or special character
/// becomes an underscore, everything else is kept.
pub open spec fn canonical_of(s: Seq<char>) -> Seq<char> {
    Seq::new(
        s.len(),
        |i: int|
            if is_special(s[i]) {
                '_'
            } else {
                s[i]
            },
    )
}

/// Forms a canonical function name without any punctuation, delimiter or
/// special character: each is replaced by an underscore.
pub fn canonical_fn_name(s: &str) -> (r: String)
    ensures
        r@ == canonical_of(s@),
{
    let n = s.unicode_len();
    let mut out = String::new();
    let mut i: usize = 0;
    while i < n
        invariant
            n == s@.len(),
            i <= n,
            out@ =~= canonical_of(s@).take(i as int),
        decreases n - i,
    {
        let c = s.get_char(i);
        let replaced = c == '"' || c == ' ' || c == '.' || c == ':' || c == '-' || c == '*' || c
            == '/' || c == '\\' || c == '\n' || c == '\t' || c == '\r';
        let ghost pre = out@;
        if replaced {
            out.append("_");
            proof {
                reveal_strlit("_");
                assert(out@ =~= pre.push('_'));
            }
        } else {
            let one = string_of_char(c);
            out.append(one.as_str());
            proof {
                assert(out@ =~= pre.push(c));
            }
        }
        i = i + 1;
        proof {
            assert(out@ =~= canonical_of(s@).take(i as int));
        }
    }
    proof {
        assert(canonical_of(s@).take(n as int) =~= canonical_of(s@));
    }
    out
}


/// The test-input file name derived from a schema id: every occurrence of
/// `isl` becomes `ion`, scanning left to right without overlap.
pub open spec fn isl_to_ion(s: Seq<char>) -> Seq<char>
    decreases s.len(),
{
    if s.len() < 3 {
        s
    } else if s.subrange(0, 3) == "isl"@ {
        "ion"@ + isl_to_ion(s.subrange(3, s.len() as int))
    } else {
        seq![s[0]] + isl_to_ion(s.subrange(1, s.len() as int))
    }
}

/// Derives the test-input file name for a schema id by rewriting every
/// `isl` in it to `ion`.
#[verifier::loop_isolation(false)]
pub fn test_input_name(schema_id: &str) -> (r: String)
    ensures
        r@ == isl_to_ion(schema_id@),
{
    proof {
        reveal_strlit("isl");
    }
    let n = schema_id.unicode_len();
    let mut out = String::new();
    let mut i: usize = 0;
    proof {
        assert(schema_id@.subrange(0, n as int) =~= schema_id@);
        assert(Seq::<char>::empty() + isl_to_ion(schema_id@) =~= isl_to_ion(schema_id@));
    }
    while i < n
        invariant
            i <= n,
            isl_to_ion(schema_id@) == out@ + isl_to_ion(schema_id@.subrange(i as int, n as int)),
        decreases n - i,
    {
        let ghost pre = out@;
        let ghost rest = schema_id@.subrange(i as int, n as int);
        if n - i >= 3 && schema_id.get_char(i) == 'i' && schema_id.get_char(i + 1) == 's'
            && schema_id.get_char(i + 2) == 'l' {
            proof {
                assert(rest.subrange(0, 3) =~= "isl"@);
                assert(rest.subrange(3, rest.len() as int) =~= schema_id@.subrange(
                    i as int + 3,
                    n as int,
                ));
            }
            out.append("ion");
            i = i + 3;
            proof {
                assert(pre + ("ion"@ + isl_to_ion(schema_id@.subrange(i as int, n as int))) =~= out@
                    + isl_to_ion(schema_id@.subrange(i as int, n as int)));
            }
        } else {
            let c = schema_id.get_char(i);
            proof {
                if rest.len() >= 3 {
                    assert(rest.subrange(0, 3) != "isl"@) by {
                        assert(rest.subrange(0, 3)[0] == rest[0]);
                        assert(rest.subrange(0, 3)[1] == rest[1]);
                        assert(rest.subrange(0, 3)[2] == rest[2]);
                        assert(rest[0] == schema_id@[i as int]);
                        assert(rest[1] == schema_id@[i as int + 1]);
                        assert(rest[2] == schema_id@[i as int + 2]);
                    }
                    assert(rest.subrange(1, rest.len() as int) =~= schema_id@.subrange(
                        i as int + 1,
                        n as int,
                    ));
                    assert(isl_to_ion(rest) == seq![c] + isl_to_ion(schema_id@.subrange(
                        i as int + 1,
                        n as int,
                    )));
                } else {
                    assert(isl_to_ion(rest) == rest);
                    assert(schema_id@.subrange(i as int + 1, n as int).len() < 3);
                    assert(isl_to_ion(schema_id@.subrange(i as int + 1, n as int))
                        == schema_id@.subrange(i as int + 1, n as int));
                    assert(rest =~= seq![c] + schema_id@.subrange(i as int + 1, n as int));
                }
            }
            let one = string_of_char(c);
            out.append(one.as_str());
            i = i + 1;
            proof {
                assert(pre + (seq![c] + isl_to_ion(schema_id@.subrange(i as int, n as int))) =~= out@
                    + isl_to_ion(schema_id@.subrange(i as int, n as int)));
            }
        }
    }
    proof {
        assert(schema_id@.subrange(n as int, n as int) =~= Seq::<char>::empty());
        assert(out@ + Seq::<char>::empty() =~= out@);
    }
    out
}

/// A string holding exactly the one given character.
///
/// Relies on `String::push`: it appends the character to the string.
#[verifier::external_body]
fn string_of_char(c: char) -> (r: String)
    ensures
        r@ == seq![c],
{
    let mut s = String::new();
    s.push(c);
    s
}

} // verus!
