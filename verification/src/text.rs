use vstd::prelude::*;
use vstd::string::StringExecFns;
use vstd::utf8::{decode_utf8, valid_utf8};

verus! {

/// The pieces of `s` between occurrences of `sep`: one more piece than there
/// are separators, each without the separator itself, in order. Splitting an
/// empty sequence yields one empty piece.
pub open spec fn split_bytes(s: Seq<u8>, sep: u8) -> Seq<Seq<u8>>
    decreases s.len(),
{
    if s.len() == 0 {
        seq![Seq::<u8>::empty()]
    } else if s[0] == sep {
        seq![Seq::<u8>::empty()] + split_bytes(s.skip(1), sep)
    } else {
        let rest = split_bytes(s.skip(1), sep);
        seq![seq![s[0]] + rest[0]] + rest.skip(1)
    }
}

/// Splitting yields at least one piece.
pub proof fn lemma_split_bytes_nonempty(s: Seq<u8>, sep: u8)
    ensures
        split_bytes(s, sep).len() >= 1,
    decreases s.len(),
{
    if s.len() > 0 && s[0] != sep {
        lemma_split_bytes_nonempty(s.skip(1), sep);
    }
}

/// Splits a byte sequence on a separator, one piece more than there are
/// separators.
pub fn split_on(data: &[u8], sep: u8) -> (r: Vec<Vec<u8>>)
    ensures
        r.deep_view() == split_bytes(data@, sep),
{
    let mut cur: Vec<u8> = Vec::new();
    let mut done: Vec<Vec<u8>> = Vec::new();
    let mut i: usize = data.len();
    while i > 0
        invariant
            0 <= i <= data@.len(),
            split_bytes(data@.skip(i as int), sep) =~= seq![cur@] + done.deep_view(),
        decreases i,
    {
        i = i - 1;
        let ghost prev_cur = cur@;
        let ghost prev_done = done.deep_view();
        let b = data[i];
        if b == sep {
            done.insert(0, cur);
            cur = Vec::new();
            proof {
                assert(done.deep_view() =~~= seq![prev_cur] + prev_done);
            }
        } else {
            cur.insert(0, b);
            proof {
                assert(cur@ =~= seq![b] + prev_cur);
            }
        }
        proof {
            let s = data@.skip(i as int);
            assert(s[0] == data@[i as int]);
            assert(s.skip(1) =~= data@.skip(i as int + 1));
            let rest = split_bytes(s.skip(1), sep);
            lemma_split_bytes_nonempty(s.skip(1), sep);
            assert(rest =~= seq![prev_cur] + prev_done);
            if b == sep {
                assert(split_bytes(s, sep) =~= seq![cur@] + done.deep_view());
            } else {
                assert(rest[0] == prev_cur);
                assert(rest.skip(1) =~= prev_done);
                assert(split_bytes(s, sep) =~= seq![cur@] + done.deep_view());
            }
        }
    }
    proof {
        assert(data@.skip(0) =~= data@);
    }
    let ghost prev_done = done.deep_view();
    done.insert(0, cur);
    proof {
        assert(done.deep_view() =~~= seq![cur@] + prev_done);
        assert(done.deep_view() == split_bytes(data@, sep));
    }
    done
}

/// Relies on String::from_utf8: it succeeds exactly on valid UTF-8 input and
/// returns the string those bytes encode.
#[verifier::external_body]
pub(crate) fn bytes_to_string(bytes: &[u8]) -> (r: Option<String>)
    ensures
        r is Some <==> valid_utf8(bytes@),
        r matches Some(s) ==> s@ == decode_utf8(bytes@),
{
    String::from_utf8(bytes.to_vec()).ok()
}

/// The character for one decimal digit.
pub open spec fn digit_char(d: nat) -> char {
    if d == 0 {
        '0'
    } else if d == 1 {
        '1'
    } else if d == 2 {
        '2'
    } else if d == 3 {
        '3'
    } else if d == 4 {
        '4'
    } else if d == 5 {
        '5'
    } else if d == 6 {
        '6'
    } else if d == 7 {
        '7'
    } else if d == 8 {
        '8'
    } else {
        '9'
    }
}

/// The decimal rendering of a number, most significant digit first, with no
/// leading zeros (a single `'0'` for zero).
pub open spec fn dec_rep(n: nat) -> Seq<char>
    decreases n,
{
    if n < 10 {
        seq![digit_char(n)]
    } else {
        dec_rep(n / 10).push(digit_char(n % 10))
    }
}

/// Appends one decimal digit to a string.
fn push_digit(out: &mut String, d: u8)
    requires
        d < 10,
    ensures
        final(out)@ == old(out)@ + seq![digit_char(d as nat)],
{
    let s: &str = if d == 0 {
        "0"
    } else if d == 1 {
        "1"
    } else if d == 2 {
        "2"
    } else if d == 3 {
        "3"
    } else if d == 4 {
        "4"
    } else if d == 5 {
        "5"
    } else if d == 6 {
        "6"
    } else if d == 7 {
        "7"
    } else if d == 8 {
        "8"
    } else {
        "9"
    };
    proof {
        reveal_strlit("0");
        reveal_strlit("1");
        reveal_strlit("2");
        reveal_strlit("3");
        reveal_strlit("4");
        reveal_strlit("5");
        reveal_strlit("6");
        reveal_strlit("7");
        reveal_strlit("8");
        reveal_strlit("9");
        assert(s@ =~= seq![digit_char(d as nat)]);
    }
    out.append(s);
}

/// Appends the decimal rendering of `n` to a string.
pub fn push_decimal(out: &mut String, n: u64)
    ensures
        final(out)@ == old(out)@ + dec_rep(n as nat),
    decreases n,
{
    if n < 10 {
        push_digit(out, n as u8);
    } else {
        push_decimal(out, n / 10);
        push_digit(out, (n % 10) as u8);
        proof {
            assert(dec_rep(n as nat) =~= dec_rep((n / 10) as nat) + seq![
                digit_char((n % 10) as nat),
            ]);
            assert(old(out)@ + dec_rep((n / 10) as nat) + seq![digit_char((n % 10) as nat)] =~= old(
                out,
            )@ + dec_rep(n as nat));
        }
    }
}

} // verus!
