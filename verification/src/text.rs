//! Text handling: trimming of imported lines and the naming and layout of
//! export artifacts.

use vstd::prelude::*;
use vstd::string::*;
use vstd::std_specs::iter::IteratorSpec;

verus! {

/// Whether `c` carries the Unicode `White_Space` property.
pub open spec fn is_space(c: char) -> bool {
    let u = c as u32;
    ||| 0x09 <= u <= 0x0D
    ||| u == 0x20
    ||| u == 0x85
    ||| u == 0xA0
    ||| u == 0x1680
    ||| 0x2000 <= u <= 0x200A
    ||| u == 0x2028
    ||| u == 0x2029
    ||| u == 0x202F
    ||| u == 0x205F
    ||| u == 0x3000
}

/// Decides [`is_space`] for one character.
pub fn is_whitespace(c: char) -> (r: bool)
    ensures
        r == is_space(c),
{
    let u: u32 = c as u32;
    (0x09 <= u && u <= 0x0D) || u == 0x20 || u == 0x85 || u == 0xA0 || u == 0x1680 || (0x2000 <= u
        && u <= 0x200A) || u == 0x2028 || u == 0x2029 || u == 0x202F || u == 0x205F || u == 0x3000
}

/// The characters of `s`, in order.
pub fn chars_of(s: &str) -> (v: Vec<char>)
    ensures
        v@ == s@,
{
    broadcast use group_string_axioms;

    let mut v: Vec<char> = Vec::new();
    let mut it = s.chars();
    loop
        invariant
            v@ + it.remaining() == s@,
            it.obeys_prophetic_iter_laws(),
            it.decrease() is Some,
        ensures
            v@ == s@,
        decreases it.decrease()->0,
    {
        let ghost before = it;
        match it.next() {
            Some(c) => {
                assert(v@.push(c) + before.remaining().drop_first() == v@ + before.remaining());
                v.push(c);
            },
            None => {
                assert(v@ + Seq::<char>::empty() == v@);
                break ;
            },
        }
    }
    v
}

/// `String::push` of std: the string afterwards is the string before with
/// `c` appended, and nothing else changes.
#[verifier::external_body]
fn push_char(s: &mut String, c: char)
    ensures
        final(s)@ == old(s)@.push(c),
{
    s.push(c);
}

/// `s` without its leading white space.
pub open spec fn trim_start(s: Seq<char>) -> Seq<char>
    decreases s.len(),
{
    if s.len() > 0 && is_space(s[0]) {
        trim_start(s.drop_first())
    } else {
        s
    }
}

/// `s` without its trailing white space.
pub open spec fn trim_end(s: Seq<char>) -> Seq<char>
    decreases s.len(),
{
    if s.len() > 0 && is_space(s.last()) {
        trim_end(s.drop_last())
    } else {
        s
    }
}

/// `s` without the white space that surrounds it.
pub open spec fn trimmed(s: Seq<char>) -> Seq<char> {
    trim_end(trim_start(s))
}

/// If the first `a` characters are white space and the next one is not,
/// trimming the start drops exactly those `a`.
pub proof fn lemma_trim_start(s: Seq<char>, a: int)
    requires
        0 <= a <= s.len(),
        forall|k: int| 0 <= k < a ==> is_space(#[trigger] s[k]),
        a == s.len() || !is_space(s[a]),
    ensures
        trim_start(s) == s.subrange(a, s.len() as int),
    decreases a,
{
    if a == 0 {
        assert(s.subrange(0, s.len() as int) == s);
    } else {
        let t = s.drop_first();
        assert(forall|k: int| 0 <= k < a - 1 ==> #[trigger] t[k] == s[k + 1]);
        lemma_trim_start(t, a - 1);
        assert(t.subrange(a - 1, t.len() as int) == s.subrange(a, s.len() as int));
    }
}

/// If everything from index `b` on is white space and the character before
/// `b` is not, trimming the end keeps exactly the first `b` characters.
pub proof fn lemma_trim_end(s: Seq<char>, b: int)
    requires
        0 <= b <= s.len(),
        forall|k: int| b <= k < s.len() ==> is_space(#[trigger] s[k]),
        b == 0 || !is_space(s[b - 1]),
    ensures
        trim_end(s) == s.subrange(0, b),
    decreases s.len() - b,
{
    if b == s.len() {
        assert(s.subrange(0, b) == s);
    } else {
        let t = s.drop_last();
        lemma_trim_end(t, b);
        assert(t.subrange(0, b) == s.subrange(0, b));
    }
}

/// The number of characters that trimming the start takes away: they are
/// all white space, and what follows them is not.
pub proof fn lemma_leading(s: Seq<char>) -> (a: int)
    ensures
        0 <= a <= s.len(),
        forall|k: int| 0 <= k < a ==> is_space(#[trigger] s[k]),
        a == s.len() || !is_space(s[a]),
        trim_start(s) == s.subrange(a, s.len() as int),
    decreases s.len(),
{
    if s.len() > 0 && is_space(s[0]) {
        let t = s.drop_first();
        let a = lemma_leading(t);
        assert(forall|k: int| 0 <= k < a ==> #[trigger] t[k] == s[k + 1]);
        assert forall|k: int| 0 <= k < a + 1 implies is_space(#[trigger] s[k]) by {
            if k > 0 {
                assert(s[k] == t[k - 1]);
            }
        }
        lemma_trim_start(s, a + 1);
        a + 1
    } else {
        lemma_trim_start(s, 0);
        0
    }
}

/// The number of characters that trimming the end keeps: what follows
/// them is all white space, and the last of them is not.
pub proof fn lemma_kept(s: Seq<char>) -> (b: int)
    ensures
        0 <= b <= s.len(),
        forall|k: int| b <= k < s.len() ==> is_space(#[trigger] s[k]),
        b == 0 || !is_space(s[b - 1]),
        trim_end(s) == s.subrange(0, b),
    decreases s.len(),
{
    if s.len() > 0 && is_space(s.last()) {
        let t = s.drop_last();
        let b = lemma_kept(t);
        assert forall|k: int| b <= k < s.len() implies is_space(#[trigger] s[k]) by {
            if k < s.len() - 1 {
                assert(s[k] == t[k]);
            }
        }
        lemma_trim_end(s, b);
        b
    } else {
        lemma_trim_end(s, s.len() as int);
        s.len() as int
    }
}

/// Trimming keeps one stretch of the text and takes away white space only;
/// what it keeps neither starts nor ends with white space, so that trimming
/// it again changes nothing.
pub proof fn law_trimmed(s: Seq<char>) -> (bounds: (int, int))
    ensures
        0 <= bounds.0 <= bounds.1 <= s.len(),
        trimmed(s) == s.subrange(bounds.0, bounds.1),
        forall|k: int| 0 <= k < bounds.0 ==> is_space(#[trigger] s[k]),
        forall|k: int| bounds.1 <= k < s.len() ==> is_space(#[trigger] s[k]),
        trimmed(s).len() > 0 ==> !is_space(trimmed(s)[0]) && !is_space(trimmed(s).last()),
        trimmed(trimmed(s)) == trimmed(s),
{
    let a = lemma_leading(s);
    let t = s.subrange(a, s.len() as int);
    let b = lemma_kept(t);
    assert(t.subrange(0, b) == s.subrange(a, a + b));
    assert forall|k: int| a + b <= k < s.len() implies is_space(#[trigger] s[k]) by {
        assert(s[k] == t[k - a]);
    }
    let r = trimmed(s);
    if r.len() > 0 {
        assert(r[0] == t[0]);
        assert(r.last() == t[b - 1]);
    }
    lemma_trim_start(r, 0);
    lemma_trim_end(r, r.len() as int);
    assert(r.subrange(0, r.len() as int) == r);
    (a, a + b)
}

/// Removes the white space around `s`. What lies between the first and the
/// last character that is not white space is kept as it is.
pub fn trim(s: &str) -> (r: String)
    ensures
        r@ == trimmed(s@),
{
    let v = chars_of(s);
    let n: usize = v.len();
    let mut a: usize = 0;
    while a < n && is_whitespace(v[a])
        invariant
            a <= n,
            n == v@.len(),
            forall|k: int| 0 <= k < a ==> is_space(#[trigger] v@[k]),
        decreases n - a,
    {
        a += 1;
    }
    let mut b: usize = n;
    while b > a && is_whitespace(v[b - 1])
        invariant
            a <= b <= n,
            n == v@.len(),
            forall|k: int| b <= k < n ==> is_space(#[trigger] v@[k]),
        decreases b,
    {
        b -= 1;
    }
    let mut r = String::new();
    let mut i: usize = a;
    while i < b
        invariant
            a <= i <= b <= n,
            n == v@.len(),
            r@ == v@.subrange(a as int, i as int),
        decreases b - i,
    {
        push_char(&mut r, v[i]);
        i += 1;
        assert(v@.subrange(a as int, i as int) == v@.subrange(a as int, i - 1).push(v@[i - 1]));
    }
    proof {
        let t = v@.subrange(a as int, n as int);
        lemma_trim_start(v@, a as int);
        assert(forall|k: int| b - a <= k < t.len() ==> #[trigger] t[k] == v@[k + a]);
        lemma_trim_end(t, b - a);
        assert(t.subrange(0, b - a) == v@.subrange(a as int, b as int));
    }
    r
}

/// How one character of a title is written in a file name: a space as an
/// underscore, an underscore and a tilde each behind a tilde, and every
/// other character as it is.
pub open spec fn encoded_char(c: char) -> Seq<char> {
    if c == ' ' {
        seq!['_']
    } else if c == '_' {
        seq!['~', '_']
    } else if c == '~' {
        seq!['~', '~']
    } else {
        seq![c]
    }
}

/// How a title is written in a file name: character by character, as
/// [`encoded_char`] says. Two titles are never written alike.
pub open spec fn encoded(s: Seq<char>) -> Seq<char>
    decreases s.len(),
{
    if s.len() == 0 {
        Seq::empty()
    } else {
        encoded(s.drop_last()) + encoded_char(s.last())
    }
}

/// A text is encoded piece by piece.
pub proof fn lemma_encoded_concat(a: Seq<char>, b: Seq<char>)
    ensures
        encoded(a + b) == encoded(a) + encoded(b),
    decreases b.len(),
{
    if b.len() == 0 {
        assert(a + b == a);
        assert(encoded(a) + Seq::<char>::empty() == encoded(a));
    } else {
        assert((a + b).drop_last() == a + b.drop_last());
        assert((a + b).last() == b.last());
        lemma_encoded_concat(a, b.drop_last());
        assert((encoded(a) + encoded(b.drop_last())) + encoded_char(b.last()) == encoded(a) + (
        encoded(b.drop_last()) + encoded_char(b.last())));
    }
}

/// A text that is not empty is encoded as its first character followed by
/// the rest.
proof fn lemma_encoded_front(s: Seq<char>)
    requires
        s.len() > 0,
    ensures
        encoded(s) == encoded_char(s[0]) + encoded(s.drop_first()),
{
    let head = seq![s[0]];
    assert(s == head + s.drop_first());
    lemma_encoded_concat(head, s.drop_first());
    assert(head.drop_last() == Seq::<char>::empty());
    assert(head.last() == s[0]);
    assert(encoded(Seq::<char>::empty()) == Seq::<char>::empty());
    assert(encoded(head) == encoded(head.drop_last()) + encoded_char(head.last()));
    assert(encoded(head) == Seq::<char>::empty() + encoded_char(s[0]));
    assert(Seq::<char>::empty() + encoded_char(s[0]) == encoded_char(s[0]));
}

/// Titles that are written alike are the same title.
pub proof fn law_encoded_injective(a: Seq<char>, b: Seq<char>)
    requires
        encoded(a) == encoded(b),
    ensures
        a == b,
    decreases a.len(),
{
    if a.len() == 0 || b.len() == 0 {
        if a.len() > 0 {
            lemma_encoded_front(a);
        }
        if b.len() > 0 {
            lemma_encoded_front(b);
        }
        assert(encoded(a).len() == 0 || encoded(b).len() == 0);
        assert(a.len() == 0 && b.len() == 0);
        assert(a == b);
    } else {
        lemma_encoded_front(a);
        lemma_encoded_front(b);
        let ha = encoded_char(a[0]);
        let hb = encoded_char(b[0]);
        let ra = encoded(a.drop_first());
        let rb = encoded(b.drop_first());
        let whole = encoded(a);
        assert(whole[0] == ha[0] && whole[0] == hb[0]);
        if ha.len() == 2 {
            assert(hb.len() == 2);
            assert(whole[1] == ha[1] && whole[1] == hb[1]);
        }
        assert(a[0] == b[0]);
        assert(ra == whole.subrange(ha.len() as int, whole.len() as int));
        assert(rb == whole.subrange(hb.len() as int, whole.len() as int));
        law_encoded_injective(a.drop_first(), b.drop_first());
        assert(a == seq![a[0]] + a.drop_first());
        assert(b == seq![b[0]] + b.drop_first());
    }
}

/// Writes a title so that it can stand in a file name: a space becomes an
/// underscore, and an underscore or a tilde of the title gets a tilde
/// before it, so that no two titles are written alike.
pub fn encode_title(s: &str) -> (r: String)
    ensures
        r@ == encoded(s@),
{
    let v = chars_of(s);
    let n: usize = v.len();
    let mut r = String::new();
    let mut i: usize = 0;
    while i < n
        invariant
            i <= n,
            n == v@.len(),
            r@ == encoded(v@.take(i as int)),
        decreases n - i,
    {
        let c: char = v[i];
        let ghost before = r@;
        proof {
            assert(v@.take(i + 1).drop_last() == v@.take(i as int));
            assert(v@.take(i + 1).last() == c);
        }
        if c == ' ' {
            push_char(&mut r, '_');
            assert(r@ == before + seq!['_']);
        } else if c == '_' || c == '~' {
            push_char(&mut r, '~');
            push_char(&mut r, c);
            assert(r@ == before + seq!['~', c]);
        } else {
            push_char(&mut r, c);
            assert(r@ == before + seq![c]);
        }
        i += 1;
    }
    assert(v@.take(n as int) == v@);
    r
}

/// The decimal digit that stands for `d`.
pub open spec fn digit(d: nat) -> char {
    if d == 0 {
        '0'
    } else if d == 1 {
        '1'
    } else if d == 2 {
        '2'
    } else if d == 3 {
        '3'
    } else if d == 4 {
        '4'
    } else if d == 5 {
        '5'
    } else if d == 6 {
        '6'
    } else if d == 7 {
        '7'
    } else if d == 8 {
        '8'
    } else {
        '9'
    }
}

/// `n` written in base ten, most significant digit first, without leading
/// zeros.
pub open spec fn decimal(n: nat) -> Seq<char>
    decreases n,
{
    if n < 10 {
        seq![digit(n)]
    } else {
        decimal(n / 10).push(digit(n % 10))
    }
}

/// A number in base ten has at least one digit, and digits only.
pub proof fn lemma_decimal_digits(n: nat)
    ensures
        decimal(n).len() >= 1,
        n >= 10 ==> decimal(n).len() >= 2,
        forall|k: int|
            0 <= k < decimal(n).len() ==> 0x30 <= (#[trigger] decimal(n)[k]) as u32 <= 0x39,
    decreases n,
{
    if n >= 10 {
        lemma_decimal_digits(n / 10);
    }
}

/// Numbers that are written alike in base ten are the same number.
pub proof fn law_decimal_injective(m: nat, n: nat)
    requires
        decimal(m) == decimal(n),
    ensures
        m == n,
    decreases m,
{
    lemma_decimal_digits(m);
    lemma_decimal_digits(n);
    if m < 10 || n < 10 {
        assert(decimal(m).len() == 1 && decimal(n).len() == 1);
        assert(decimal(m)[0] == decimal(n)[0]);
    } else {
        assert(decimal(m).drop_last() == decimal(m / 10));
        assert(decimal(n).drop_last() == decimal(n / 10));
        assert(decimal(m).last() == digit(m % 10));
        assert(decimal(n).last() == digit(n % 10));
        law_decimal_injective(m / 10, n / 10);
    }
}

fn digit_char(d: usize) -> (c: char)
    requires
        d < 10,
    ensures
        c == digit(d as nat),
{
    if d == 0 {
        '0'
    } else if d == 1 {
        '1'
    } else if d == 2 {
        '2'
    } else if d == 3 {
        '3'
    } else if d == 4 {
        '4'
    } else if d == 5 {
        '5'
    } else if d == 6 {
        '6'
    } else if d == 7 {
        '7'
    } else if d == 8 {
        '8'
    } else {
        '9'
    }
}

/// Appends `n` in base ten to `out`.
pub fn push_decimal(out: &mut String, n: usize)
    ensures
        final(out)@ == old(out)@ + decimal(n as nat),
    decreases n,
{
    if n >= 10 {
        push_decimal(out, n / 10);
    }
    push_char(out, digit_char(n % 10));
    proof {
        if n < 10 {
            assert(old(out)@.push(digit(n as nat)) == old(out)@ + seq![digit(n as nat)]);
        } else {
            assert((old(out)@ + decimal((n / 10) as nat)).push(digit((n % 10) as nat)) == old(
                out,
            )@ + decimal((n / 10) as nat).push(digit((n % 10) as nat)));
        }
    }
}

/// The text of each line.
pub open spec fn texts(lines: Seq<String>) -> Seq<Seq<char>> {
    lines.map_values(|s: String| s@)
}

/// The lines with a line feed between each two of them, and none at the
/// end.
pub open spec fn joined(lines: Seq<Seq<char>>) -> Seq<char>
    decreases lines.len(),
{
    if lines.len() == 0 {
        Seq::empty()
    } else if lines.len() == 1 {
        lines[0]
    } else {
        joined(lines.drop_last()) + seq!['\n'] + lines.last()
    }
}

/// Lays out an export: one code per line, in the order given.
pub fn join_lines(lines: &Vec<String>) -> (r: String)
    ensures
        r@ == joined(texts(lines@)),
{
    let n: usize = lines.len();
    let mut r = String::new();
    let mut i: usize = 0;
    while i < n
        invariant
            i <= n,
            n == lines@.len(),
            r@ == joined(texts(lines@).take(i as int)),
        decreases n - i,
    {
        let ghost head = texts(lines@).take(i as int);
        let ghost next = texts(lines@).take(i + 1);
        assert(next.drop_last() == head);
        assert(next.last() == lines@[i as int]@);
        if i > 0 {
            push_char(&mut r, '\n');
            assert(r@ == joined(head) + seq!['\n']);
        } else {
            assert(Seq::<char>::empty() + lines@[0]@ == lines@[0]@);
        }
        r.append(lines[i].as_str());
        i += 1;
    }
    assert(texts(lines@).take(n as int) == texts(lines@));
    r
}

/// The name of the artifact that holds `count` codes of the collection
/// `title`: the word `export`, the title as [`encoded`] writes it, the
/// count followed by `x`, and the extension `.txt`.
pub open spec fn export_name(title: Seq<char>, count: nat) -> Seq<char> {
    seq!['e', 'x', 'p', 'o', 'r', 't', '_'] + encoded(title) + seq!['_'] + decimal(count)
        + seq!['x', '.', 't', 'x', 't']
}

/// An artifact is named by its title and the size of its batch, and by
/// nothing else: exports of different collections, or of batches of
/// different sizes, never share a name.
pub proof fn law_export_name_injective(
    title1: Seq<char>,
    count1: nat,
    title2: Seq<char>,
    count2: nat,
)
    requires
        export_name(title1, count1) == export_name(title2, count2),
    ensures
        title1 == title2,
        count1 == count2,
{
    let head = seq!['e', 'x', 'p', 'o', 'r', 't', '_'];
    let tail = seq!['x', '.', 't', 'x', 't'];
    let e1 = encoded(title1);
    let e2 = encoded(title2);
    let d1 = decimal(count1);
    let d2 = decimal(count2);
    let le1 = e1.len() as int;
    let le2 = e2.len() as int;
    let ld1 = d1.len() as int;
    let ld2 = d2.len() as int;
    let name = export_name(title1, count1);
    lemma_decimal_digits(count1);
    lemma_decimal_digits(count2);
    assert(name.len() == 7 + e1.len() + 1 + d1.len() + 5);
    assert(name.len() == 7 + e2.len() + 1 + d2.len() + 5);
    assert(name == head + e1 + seq!['_'] + d1 + tail);
    assert(name == head + e2 + seq!['_'] + d2 + tail);
    // the underscore before the count is the last one of the name
    if d1.len() > d2.len() {
        let at = 7 + le2;
        assert((head + e2 + seq!['_'] + d2 + tail)[at] == '_');
        assert((head + e1 + seq!['_'] + d1 + tail)[at] == d1[at - 7 - le1 - 1]);
    }
    if d2.len() > d1.len() {
        let at = 7 + le1;
        assert((head + e1 + seq!['_'] + d1 + tail)[at] == '_');
        assert((head + e2 + seq!['_'] + d2 + tail)[at] == d2[at - 7 - le2 - 1]);
    }
    assert(d1.len() == d2.len());
    assert(e1 == name.subrange(7, 7 + le1));
    assert(e2 == name.subrange(7, 7 + le2));
    assert(d1 == name.subrange(8 + le1, 8 + le1 + ld1));
    assert(d2 == name.subrange(8 + le2, 8 + le2 + ld2));
    law_encoded_injective(title1, title2);
    law_decimal_injective(count1, count2);
}

/// Names the artifact of an export, from the collection's title and the
/// size of the batch. Different titles or sizes give different names.
pub fn export_file_name(title: &str, count: usize) -> (r: String)
    ensures
        r@ == export_name(title@, count as nat),
{
    proof {
        reveal_strlit("export_");
        reveal_strlit("x.txt");
    }
    let mut r = String::from_str("export_");
    assert(r@ == seq!['e', 'x', 'p', 'o', 'r', 't', '_']);
    let t = encode_title(title);
    r.append(t.as_str());
    push_char(&mut r, '_');
    push_decimal(&mut r, count);
    r.append("x.txt");
    assert("x.txt"@ == seq!['x', '.', 't', 'x', 't']);
    assert(seq!['e', 'x', 'p', 'o', 'r', 't', '_'] + encoded(title@) + seq!['_']
        == (seq!['e', 'x', 'p', 'o', 'r', 't', '_'] + encoded(title@)).push('_'));
    r
}

} // verus!
