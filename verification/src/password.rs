//! The password generator: a fixed base alphabet, an optional extended
//! symbol set, uniform random index draws, and batches joined by `\r\n`.

use vstd::prelude::*;
use vstd::string::*;

verus! {

/// The 70 base characters: upper case letters, lower case letters, digits
/// and eight common symbols. Always available for every draw.
pub open spec fn base_chars() -> Seq<char> {
    "ABCDEFGHIJKLMNOPQRSTUVWXYZabcdefghijklmnopqrstuvwxyz0123456789*&^%$#@!"@
}

/// The 24 extended symbols, available only in extended mode.
pub open spec fn ext_chars() -> Seq<char> {
    "~`()_-+={[}]|\\:;\"'<,>.?/"@
}

/// The alphabet a generation call draws from: the base characters, followed
/// by the extended symbols when `extend` is set.
pub open spec fn working_chars(extend: bool) -> Seq<char> {
    if extend {
        base_chars() + ext_chars()
    } else {
        base_chars()
    }
}

/// The two-character line separator between the passwords of a batch.
pub open spec fn crlf() -> Seq<char> {
    seq!['\r', '\n']
}

/// A well-formed password: exactly `length` characters, each drawn from the
/// working alphabet, and in extended mode the first character lies in the
/// base region rather than the extended one.
pub open spec fn valid_password(s: Seq<char>, length: int, extend: bool) -> bool {
    &&& s.len() == length
    &&& forall|i: int| 0 <= i < s.len() ==> working_chars(extend).contains(#[trigger] s[i])
    &&& extend && length > 0 ==> base_chars().contains(s[0])
}

/// `number` well-formed passwords of the same length, joined by `\r\n` with
/// no separator before the first or after the last.
pub open spec fn valid_batch(s: Seq<char>, length: int, number: int, extend: bool) -> bool {
    exists|parts: Seq<Seq<char>>|
        {
            &&& parts.len() == number
            &&& batch_parts_ok(parts, length, extend)
            &&& s == #[trigger] join_crlf(parts)
        }
}

pub open spec fn batch_parts_ok(parts: Seq<Seq<char>>, length: int, extend: bool) -> bool {
    forall|k: int| 0 <= k < parts.len() ==> valid_password(#[trigger] parts[k], length, extend)
}

/// The given parts in order, with one `\r\n` between neighbours.
pub open spec fn join_crlf(parts: Seq<Seq<char>>) -> Seq<char>
    decreases parts.len(),
{
    if parts.len() == 0 {
        Seq::empty()
    } else if parts.len() == 1 {
        parts[0]
    } else {
        join_crlf(parts.drop_last()) + crlf() + parts.last()
    }
}

/// The total character count of a batch: `number` passwords of `length`
/// characters and a two-character separator between neighbours.
pub open spec fn batch_len(length: int, number: int) -> int {
    if number <= 0 {
        0
    } else {
        number * length + (number - 1) * 2
    }
}

pub proof fn lemma_charset_lens()
    ensures
        base_chars().len() == 70,
        ext_chars().len() == 24,
{
    reveal_strlit("ABCDEFGHIJKLMNOPQRSTUVWXYZabcdefghijklmnopqrstuvwxyz0123456789*&^%$#@!");
    reveal_strlit("~`()_-+={[}]|\\:;\"'<,>.?/");
}

/// Every character of the working alphabet is ASCII, and none is a carriage
/// return or a line feed, so the separator of a batch can never occur inside
/// a password.
pub proof fn lemma_charset_chars()
    ensures
        forall|c: char|
            working_chars(true).contains(c) ==> '\0' <= c <= '\u{7f}' && c != '\r' && c != '\n',
        forall|c: char|
            working_chars(false).contains(c) ==> '\0' <= c <= '\u{7f}' && c != '\r' && c != '\n',
{
    lemma_charset_lens();
    reveal_strlit("ABCDEFGHIJKLMNOPQRSTUVWXYZabcdefghijklmnopqrstuvwxyz0123456789*&^%$#@!");
    reveal_strlit("~`()_-+={[}]|\\:;\"'<,>.?/");
    assert forall|c: char| working_chars(true).contains(c) implies '\0' <= c <= '\u{7f}' && c
        != '\r' && c != '\n' by {
        let i = choose|i: int| 0 <= i < working_chars(true).len() && working_chars(true)[i] == c;
        if i < 70 {
            assert(working_chars(true)[i] == base_chars()[i]);
        } else {
            assert(working_chars(true)[i] == ext_chars()[i - 70]);
        }
    }
    assert forall|c: char| working_chars(false).contains(c) implies '\0' <= c <= '\u{7f}' && c
        != '\r' && c != '\n' by {
        let i = choose|i: int| 0 <= i < working_chars(false).len() && working_chars(false)[i] == c;
        assert(working_chars(true)[i] == base_chars()[i]);
        assert(working_chars(true).contains(base_chars()[i]));
    }
}

fn base_str() -> (s: &'static str)
    ensures
        s@ == base_chars(),
{
    "ABCDEFGHIJKLMNOPQRSTUVWXYZabcdefghijklmnopqrstuvwxyz0123456789*&^%$#@!"
}

fn ext_str() -> (s: &'static str)
    ensures
        s@ == ext_chars(),
{
    "~`()_-+={[}]|\\:;\"'<,>.?/"
}

/// The length of the working alphabet: 70 base characters, plus 24 extended
/// symbols when `extend` is set.
fn charset_len(extend: bool) -> (n: usize)
    ensures
        n == working_chars(extend).len(),
{
    proof {
        lemma_charset_lens();
    }
    if extend {
        94
    } else {
        70
    }
}

/// The character of the working alphabet at position `idx`.
fn charset_char(idx: usize, extend: bool) -> (c: char)
    requires
        idx < working_chars(extend).len(),
    ensures
        c == working_chars(extend)[idx as int],
{
    proof {
        lemma_charset_lens();
    }
    if idx < 70 {
        base_str().get_char(idx)
    } else {
        ext_str().get_char(idx - 70)
    }
}

/// Relies on `rand::Rng::gen_range` over the range `0..bound`: it returns a
/// uniformly drawn value of that range, and panics only when the range is
/// empty. The draw is random, so nothing beyond the bound is promised.
#[verifier::external_body]
fn random_index(bound: usize) -> (idx: usize)
    requires
        bound > 0,
    ensures
        idx < bound,
{
    rand::Rng::gen_range(&mut rand::thread_rng(), 0..bound)
}

/// Relies on `String::push`, which appends the given character.
#[verifier::external_body]
fn push_char(s: &mut String, c: char)
    ensures
        final(s)@ == old(s)@.push(c),
{
    s.push(c);
}

/// Generates a single password of `length` characters drawn uniformly from
/// the working alphabet. In extended mode a guard protects the start of the
/// password: the first draw that lands in the extended region (the boundary
/// index itself counts as extended) is remapped into the base region, so the
/// first character is never an extended symbol.
pub fn create_password(length: usize, extend: bool) -> (pw: String)
    ensures
        valid_password(pw@, length as int, extend),
        pw@.len() == length,
        pw.is_ascii(),
{
    let mut pw = String::new();
    let alphabet_len = charset_len(extend);
    let mut first_char: bool = extend;
    let mut i: usize = 0;
    while i < length
        invariant
            i <= length,
            pw@.len() == i,
            alphabet_len == working_chars(extend).len(),
            first_char ==> extend,
            extend && i == 0 ==> first_char,
            forall|j: int| 0 <= j < i ==> working_chars(extend).contains(#[trigger] pw@[j]),
            extend && i > 0 ==> base_chars().contains(pw@[0]),
        decreases length - i,
    {
        proof {
            lemma_charset_lens();
        }
        let idx = random_index(alphabet_len);
        let c: char;
        if first_char && idx >= 70 {
            first_char = false;
            c = charset_char(idx - 24, extend);
            proof {
                assert(working_chars(extend)[idx - 24] == base_chars()[idx - 24]);
                assert(base_chars().contains(c));
            }
        } else {
            c = charset_char(idx, extend);
            proof {
                if idx < 70 {
                    assert(working_chars(extend)[idx as int] == base_chars()[idx as int]);
                    assert(base_chars().contains(c));
                }
            }
        }
        proof {
            assert(working_chars(extend).contains(c));
        }
        push_char(&mut pw, c);
        i = i + 1;
    }
    proof {
        lemma_charset_chars();
        assert forall|j: int| 0 <= j < pw@.len() implies '\0' <= #[trigger] pw@[j] <= '\u{7f}' by {
            assert(working_chars(extend).contains(pw@[j]));
        }
    }
    pw
}

/// Generates `number` independent passwords of the same `length` and joins
/// them with `\r\n`, with no separator before the first or after the last;
/// zero passwords yield the empty string.
pub fn collect_passwords(length: usize, number: usize, extend: bool) -> (out: String)
    ensures
        valid_batch(out@, length as int, number as int, extend),
        out@.len() == batch_len(length as int, number as int),
        number == 0 ==> out@ == Seq::<char>::empty(),
        out.is_ascii(),
{
    let mut buffer = String::new();
    let ghost mut parts: Seq<Seq<char>> = Seq::empty();
    let mut n: usize = 0;
    while n < number
        invariant
            n <= number,
            parts.len() == n,
            batch_parts_ok(parts, length as int, extend),
            buffer@ == join_crlf(parts),
            buffer@.len() == batch_len(length as int, n as int),
            vstd::utf8::is_ascii_chars(buffer@),
        decreases number - n,
    {
        if n > 0 {
            let ghost before = buffer@;
            buffer.append("\r\n");
            proof {
                reveal_strlit("\r\n");
                assert("\r\n"@ =~= crlf());
                assert(vstd::utf8::is_ascii_chars(crlf()));
                vstd::utf8::is_ascii_chars_concat(buffer@, before, crlf());
            }
        }
        let pw = create_password(length, extend);
        let ghost joined = buffer@;
        buffer.append(pw.as_str());
        proof {
            vstd::utf8::is_ascii_chars_concat(buffer@, joined, pw@);
            let prev = parts;
            parts = parts.push(pw@);
            assert(parts.drop_last() =~= prev);
            assert(parts.last() == pw@);
            if n == 0 {
                assert(join_crlf(parts) == pw@);
            } else {
                assert(join_crlf(parts) == join_crlf(prev) + crlf() + pw@);
                assert((n + 1) * length as int == n * length as int + length as int)
                    by (nonlinear_arith);
            }
        }
        n = n + 1;
    }
    proof {
        if number == 0 {
            assert(join_crlf(parts) =~= Seq::<char>::empty());
        }
    }
    buffer
}

/// A batch of one is exactly one password: no separator is appended.
pub proof fn lemma_batch_single(s: Seq<char>, length: int, extend: bool)
    requires
        valid_batch(s, length, 1, extend),
    ensures
        valid_password(s, length, extend),
{
    let parts = choose|parts: Seq<Seq<char>>|
        {
            &&& parts.len() == 1
            &&& batch_parts_ok(parts, length, extend)
            &&& s == #[trigger] join_crlf(parts)
        };
    assert(join_crlf(parts) == parts[0]);
    assert(valid_password(parts[0], length, extend));
}

/// A batch of two is a password, one `\r\n`, and a second password; since no
/// password character is a carriage return or a line feed, splitting the
/// batch on `\r\n` yields exactly those two segments.
pub proof fn lemma_batch_pair(s: Seq<char>, length: int, extend: bool)
    requires
        valid_batch(s, length, 2, extend),
        length >= 0,
    ensures
        s.len() == 2 * length + 2,
        s[length] == '\r',
        s[length + 1] == '\n',
        valid_password(s.subrange(0, length), length, extend),
        valid_password(s.subrange(length + 2, s.len() as int), length, extend),
        forall|i: int|
            0 <= i < s.len() && i != length && i != length + 1 ==> s[i] != '\r' && s[i] != '\n',
{
    let parts = choose|parts: Seq<Seq<char>>|
        {
            &&& parts.len() == 2
            &&& batch_parts_ok(parts, length, extend)
            &&& s == #[trigger] join_crlf(parts)
        };
    assert(join_crlf(parts.drop_last()) == parts[0]);
    assert(s == parts[0] + crlf() + parts[1]);
    assert(valid_password(parts[0], length, extend));
    assert(valid_password(parts[1], length, extend));
    assert(s.subrange(0, length) =~= parts[0]);
    assert(s.subrange(length + 2, s.len() as int) =~= parts[1]);
    lemma_charset_chars();
    assert forall|i: int|
        0 <= i < s.len() && i != length && i != length + 1 implies s[i] != '\r' && s[i]
        != '\n' by {
        if i < length {
            assert(s[i] == parts[0][i]);
            assert(working_chars(extend).contains(parts[0][i]));
        } else {
            assert(s[i] == parts[1][i - length - 2]);
            assert(working_chars(extend).contains(parts[1][i - length - 2]));
        }
    }
}

/// Every character of a well-formed password is ASCII, and none is a
/// carriage return or a line feed.
pub proof fn lemma_password_ascii(s: Seq<char>, length: int, extend: bool)
    requires
        valid_password(s, length, extend),
    ensures
        forall|i: int|
            0 <= i < s.len() ==> '\0' <= #[trigger] s[i] <= '\u{7f}' && s[i] != '\r' && s[i]
                != '\n',
{
    lemma_charset_chars();
    assert forall|i: int| 0 <= i < s.len() implies '\0' <= #[trigger] s[i] <= '\u{7f}' && s[i]
        != '\r' && s[i] != '\n' by {
        assert(working_chars(extend).contains(s[i]));
    }
}

} // verus!
