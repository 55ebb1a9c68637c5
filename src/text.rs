//! Text processing before display: markup escaping and link-ification.

use vstd::prelude::*;
use vstd::std_specs::iter::IteratorSpec;

verus! {

/// Relies on `String::push`: the character is appended at the end.
pub assume_specification[ String::push ](s: &mut String, ch: char)
    ensures
        final(s)@ == old(s)@.push(ch),
;

/// The characters of a string, in order.
pub fn chars_of(s: &str) -> (r: Vec<char>)
    ensures
        r@ == s@,
{
    let mut it = s.chars();
    let mut r: Vec<char> = Vec::new();
    loop
        invariant
            r@ + it.remaining() == s@,
            it.decrease() is Some,
        ensures
            r@ == s@,
        decreases it.decrease()->0,
    {
        match it.next() {
            Some(c) => {
                r.push(c);
            },
            None => {
                assert(r@ + it.remaining() == r@);
                break ;
            },
        }
    }
    r
}

/// A string made of the given characters.
pub fn string_of(v: &Vec<char>) -> (r: String)
    ensures
        r@ == v@,
{
    let mut r = String::new();
    let mut i: usize = 0;
    while i < v.len()
        invariant
            i <= v.len(),
            r@ == v@.take(i as int),
        decreases v.len() - i,
    {
        r.push(v[i]);
        i = i + 1;
        assert(r@ =~= v@.take(i as int));
    }
    assert(v@.take(v.len() as int) =~= v@);
    r
}

/// The lower-case hexadecimal digits.
pub open spec fn hex_digits() -> Seq<char> {
    seq!['0', '1', '2', '3', '4', '5', '6', '7', '8', '9', 'a', 'b', 'c', 'd', 'e', 'f']
}

/// `u` in lower-case hexadecimal without leading zeros, for `u < 256`.
pub open spec fn hex_of(u: nat) -> Seq<char> {
    if u < 16 {
        seq![hex_digits()[u as int]]
    } else {
        seq![hex_digits()[(u / 16) as int], hex_digits()[(u % 16) as int]]
    }
}

/// Control characters that markup escaping writes as numeric references:
/// C0 controls but for tab, line feed and carriage return, DEL, and the C1
/// controls but for NEL.
pub open spec fn is_markup_control(c: char) -> bool {
    let u = c as u32;
    (1 <= u <= 8) || (0xb <= u <= 0xc) || (0xe <= u <= 0x1f) || (0x7f <= u <= 0x84) || (0x86
        <= u <= 0x9f)
}

/// What markup escaping writes for one character.
pub open spec fn escaped_char(c: char) -> Seq<char> {
    if c == '&' {
        seq!['&', 'a', 'm', 'p', ';']
    } else if c == '<' {
        seq!['&', 'l', 't', ';']
    } else if c == '>' {
        seq!['&', 'g', 't', ';']
    } else if c == '\'' {
        seq!['&', '#', '3', '9', ';']
    } else if c == '"' {
        seq!['&', 'q', 'u', 'o', 't', ';']
    } else if is_markup_control(c) {
        seq!['&', '#', 'x'] + hex_of(c as u32 as nat) + seq![';']
    } else {
        seq![c]
    }
}

/// Markup escaping of a whole text: each character replaced by its escape.
pub open spec fn markup_escaped(s: Seq<char>) -> Seq<char>
    decreases s.len(),
{
    if s.len() == 0 {
        seq![]
    } else {
        markup_escaped(s.drop_last()) + escaped_char(s.last())
    }
}

/// Whitespace as ASCII defines it: space, tab, line feed, form feed,
/// carriage return.
pub open spec fn is_ascii_ws(c: char) -> bool {
    c == ' ' || c == '\t' || c == '\n' || c == '\x0C' || c == '\r'
}

/// `s` holds "http" at index `i`.
pub open spec fn http_at(s: Seq<char>, i: int) -> bool {
    0 <= i && i + 4 <= s.len() && s[i] == 'h' && s[i + 1] == 't' && s[i + 2] == 't' && s[i + 3]
        == 'p'
}

/// `s` holds "http" somewhere.
pub open spec fn contains_http(s: Seq<char>) -> bool {
    exists|i: int| http_at(s, i)
}

/// The end of the whitespace-delimited token that starts at `i`: the index of
/// the first ASCII whitespace at or after `i`, or the length.
pub open spec fn token_end(s: Seq<char>, i: int) -> int
    decreases s.len() - i,
{
    if i >= s.len() || i < 0 {
        s.len() as int
    } else if is_ascii_ws(s[i]) {
        i
    } else {
        token_end(s, i + 1)
    }
}

/// An anchor whose target and label are both `l`.
pub open spec fn anchor(l: Seq<char>) -> Seq<char> {
    seq!['<', 'a', ' ', 'h', 'r', 'e', 'f', '=', '"'] + l + seq!['"', '>'] + l + seq![
        '<',
        '/',
        'a',
        '>',
    ]
}

/// Link-ification: every whitespace-delimited token that begins with "http",
/// found left to right, is wrapped in an anchor pointing at itself; all other
/// text is kept as it is.
pub open spec fn html_links(s: Seq<char>) -> Seq<char>
    decreases s.len(),
{
    if s.len() == 0 {
        s
    } else if http_at(s, 0) {
        let t = token_end(s, 0);
        if t <= 0 || t > s.len() {
            s
        } else {
            anchor(s.take(t)) + html_links(s.skip(t))
        }
    } else {
        seq![s[0]] + html_links(s.drop_first())
    }
}

/// Text as it is displayed: escaped first, then link-ified.
pub open spec fn processed_text(s: Seq<char>) -> Seq<char> {
    html_links(markup_escaped(s))
}

proof fn lemma_token_end_bounds(s: Seq<char>, i: int)
    requires
        0 <= i <= s.len(),
    ensures
        i <= token_end(s, i) <= s.len(),
        forall|k: int| i <= k < token_end(s, i) ==> !is_ascii_ws(#[trigger] s[k]),
        token_end(s, i) < s.len() ==> is_ascii_ws(s[token_end(s, i)]),
    decreases s.len() - i,
{
    if i < s.len() && !is_ascii_ws(s[i]) {
        lemma_token_end_bounds(s, i + 1);
    }
}

proof fn lemma_token_end_skip(s: Seq<char>, i: int, j: int)
    requires
        0 <= i <= j <= s.len(),
    ensures
        token_end(s.skip(i), j - i) == token_end(s, j) - i,
    decreases s.len() - j,
{
    if j < s.len() && !is_ascii_ws(s[j]) {
        lemma_token_end_skip(s, i, j + 1);
    }
}

/// Appends `piece[from..to]` to `out`.
fn push_range(out: &mut Vec<char>, piece: &[char], from: usize, to: usize)
    requires
        from <= to <= piece@.len(),
    ensures
        final(out)@ == old(out)@ + piece@.subrange(from as int, to as int),
{
    let mut i: usize = from;
    while i < to
        invariant
            from <= i <= to,
            to <= piece@.len(),
            out@ == old(out)@ + piece@.subrange(from as int, i as int),
        decreases to - i,
    {
        out.push(piece[i]);
        i = i + 1;
        assert(out@ =~= old(out)@ + piece@.subrange(from as int, i as int));
    }
}

/// Appends all of `piece` to `out`.
fn push_all(out: &mut Vec<char>, piece: &[char])
    ensures
        final(out)@ == old(out)@ + piece@,
{
    push_range(out, piece, 0, piece.len());
    assert(piece@.subrange(0, piece@.len() as int) =~= piece@);
}

/// Appends `anchor(chars[from..to])` to `out`.
fn push_anchor(out: &mut Vec<char>, chars: &Vec<char>, from: usize, to: usize)
    requires
        from <= to <= chars.len(),
    ensures
        final(out)@ == old(out)@ + anchor(chars@.subrange(from as int, to as int)),
{
    let open = ['<', 'a', ' ', 'h', 'r', 'e', 'f', '=', '"'];
    let mid = ['"', '>'];
    let close = ['<', '/', 'a', '>'];
    push_all(out, open.as_slice());
    push_range(out, chars.as_slice(), from, to);
    push_all(out, mid.as_slice());
    push_range(out, chars.as_slice(), from, to);
    push_all(out, close.as_slice());
    assert(final(out)@ =~= old(out)@ + anchor(chars@.subrange(from as int, to as int)));
}

/// Wraps every whitespace-delimited token that begins with "http" in an
/// anchor pointing at itself. The tokenizer splits on ASCII whitespace only,
/// so punctuation that ends such a token is part of the link.
pub fn markup_html_links(text: &str) -> (r: String)
    ensures
        r@ == html_links(text@),
{
    let chars = chars_of(text);
    let n = chars.len();
    let mut out: Vec<char> = Vec::new();
    let mut i: usize = 0;
    assert(chars@.skip(0) =~= chars@);
    while i < n
        invariant
            n == chars@.len(),
            chars@ == text@,
            i <= n,
            out@ + html_links(chars@.skip(i as int)) == html_links(text@),
        decreases n - i,
    {
        let ghost rest = chars@.skip(i as int);
        if n - i >= 4 && chars[i] == 'h' && chars[i + 1] == 't' && chars[i + 2] == 't' && chars[i
            + 3] == 'p' {
            let mut t: usize = i;
            while t < n && !is_ascii_whitespace(chars[t])
                invariant
                    i <= t <= n,
                    n == chars@.len(),
                    token_end(chars@, i as int) == token_end(chars@, t as int),
                decreases n - t,
            {
                t = t + 1;
            }
            proof {
                lemma_token_end_skip(chars@, i as int, i as int);
                lemma_token_end_bounds(chars@, i as int);
                assert(http_at(rest, 0));
                assert(rest.take(t - i) =~= chars@.subrange(i as int, t as int));
                assert(rest.skip(t - i) =~= chars@.skip(t as int));
            }
            push_anchor(&mut out, &chars, i, t);
            i = t;
        } else {
            proof {
                assert(!http_at(rest, 0));
                assert(rest.drop_first() =~= chars@.skip(i + 1));
            }
            out.push(chars[i]);
            i = i + 1;
        }
    }
    proof {
        assert(chars@.skip(n as int) =~= Seq::<char>::empty());
        assert(out@ + Seq::<char>::empty() =~= out@);
    }
    string_of(&out)
}

/// ASCII whitespace test, as `u8::is_ascii_whitespace` on the char's code.
pub fn is_ascii_whitespace(c: char) -> (r: bool)
    ensures
        r == is_ascii_ws(c),
{
    c == ' ' || c == '\t' || c == '\n' || c == '\x0C' || c == '\r'
}

/// Appends the escape of `c` to `out`.
fn push_escaped(out: &mut Vec<char>, c: char)
    ensures
        final(out)@ == old(out)@ + escaped_char(c),
{
    let u: u32 = c as u32;
    if c == '&' {
        push_all(out, ['&', 'a', 'm', 'p', ';'].as_slice());
    } else if c == '<' {
        push_all(out, ['&', 'l', 't', ';'].as_slice());
    } else if c == '>' {
        push_all(out, ['&', 'g', 't', ';'].as_slice());
    } else if c == '\'' {
        push_all(out, ['&', '#', '3', '9', ';'].as_slice());
    } else if c == '"' {
        push_all(out, ['&', 'q', 'u', 'o', 't', ';'].as_slice());
    } else if (1 <= u && u <= 8) || (0xb <= u && u <= 0xc) || (0xe <= u && u <= 0x1f) || (0x7f
        <= u && u <= 0x84) || (0x86 <= u && u <= 0x9f) {
        let digits = [
            '0',
            '1',
            '2',
            '3',
            '4',
            '5',
            '6',
            '7',
            '8',
            '9',
            'a',
            'b',
            'c',
            'd',
            'e',
            'f',
        ];
        assert(digits@ =~= hex_digits());
        push_all(out, ['&', '#', 'x'].as_slice());
        if u >= 16 {
            out.push(digits[(u / 16) as usize]);
        }
        out.push(digits[(u % 16) as usize]);
        out.push(';');
    } else {
        out.push(c);
    }
    assert(final(out)@ =~= old(out)@ + escaped_char(c));
}

/// Escapes text so that a markup parser reads it verbatim: `&`, `<`, `>`,
/// `'` and `"` become entities, and control characters other than tab, line
/// feed, carriage return and NEL become hexadecimal character references.
pub fn markup_escape_text(text: &str) -> (r: String)
    ensures
        r@ == markup_escaped(text@),
{
    let chars = chars_of(text);
    let mut out: Vec<char> = Vec::new();
    let mut i: usize = 0;
    while i < chars.len()
        invariant
            i <= chars@.len(),
            out@ == markup_escaped(chars@.take(i as int)),
        decreases chars@.len() - i,
    {
        let c = chars[i];
        push_escaped(&mut out, c);
        proof {
            let next = chars@.take(i + 1);
            assert(next.drop_last() =~= chars@.take(i as int));
            assert(next.last() == c);
        }
        i = i + 1;
    }
    assert(chars@.take(chars@.len() as int) =~= text@);
    string_of(&out)
}

/// Prepares text for display: escapes markup, then link-ifies.
pub fn process_text(text: &str) -> (r: String)
    ensures
        r@ == processed_text(text@),
{
    let escaped = markup_escape_text(text);
    markup_html_links(escaped.as_str())
}

/// Link-ification leaves a text without "http" as it is, so applying it
/// again changes nothing.
pub proof fn lemma_links_idempotent_without_http(s: Seq<char>)
    requires
        !contains_http(s),
    ensures
        html_links(s) == s,
        html_links(html_links(s)) == html_links(s),
    decreases s.len(),
{
    if s.len() > 0 {
        assert(!http_at(s, 0));
        let rest = s.drop_first();
        assert(!contains_http(rest)) by {
            if exists|i: int| http_at(rest, i) {
                let i = choose|i: int| http_at(rest, i);
                assert(http_at(s, i + 1));
            }
        }
        lemma_links_idempotent_without_http(rest);
        assert(seq![s[0]] + rest =~= s);
    }
}

} // verus!
