//! Text helpers: decimal rendering, substring search, comma splitting and
//! the quoted (`Debug`) rendering of strings and string lists.

use vstd::prelude::*;

verus! {

/// The character of a decimal digit.
pub open spec fn digit_char(d: int) -> char {
    if d == 0 {
        '0'
    } else if d == 1 {
        '1'
    } else if d == 2 {
        '2'
    } else if d == 3 {
        '3'
    } else if d == 4 {
        '4'
    } else if d == 5 {
        '5'
    } else if d == 6 {
        '6'
    } else if d == 7 {
        '7'
    } else if d == 8 {
        '8'
    } else {
        '9'
    }
}

/// The decimal notation of `n`, without sign or leading zeros.
pub open spec fn decimal_text(n: nat) -> Seq<char>
    decreases n,
{
    if n < 10 {
        seq![digit_char(n as int)]
    } else {
        decimal_text(n / 10).push(digit_char((n % 10) as int))
    }
}

/// The number that a text of decimal digits denotes.
pub open spec fn digits_value(s: Seq<char>) -> int
    decreases s.len(),
{
    if s.len() == 0 {
        0
    } else {
        digits_value(s.drop_last()) * 10 + digit_value(s.last())
    }
}

/// The value of a decimal digit character.
pub open spec fn digit_value(c: char) -> int {
    (c as int) - ('0' as int)
}

proof fn lemma_digit_char(d: int)
    requires
        0 <= d < 10,
    ensures
        digit_value(digit_char(d)) == d,
        '0' <= digit_char(d) && digit_char(d) <= '9',
        d > 0 ==> digit_char(d) != '0',
{
}

/// The decimal text of `n` is made of digits, read back gives `n`, and
/// starts with a zero only for zero itself.
pub proof fn law_decimal_reads_back(n: nat)
    ensures
        digits_value(decimal_text(n)) == n,
        decimal_text(n).len() >= 1,
        forall|i: int|
            0 <= i < decimal_text(n).len() ==> '0' <= #[trigger] decimal_text(n)[i] && decimal_text(
                n,
            )[i] <= '9',
        n > 0 ==> decimal_text(n)[0] != '0',
    decreases n,
{
    lemma_digit_char((n % 10) as int);
    if n >= 10 {
        law_decimal_reads_back(n / 10);
        let s = decimal_text(n / 10);
        assert(decimal_text(n).drop_last() =~= s);
        assert(decimal_text(n)[0] == s[0]);
        assert(decimal_text(n).last() == digit_char((n % 10) as int));
        assert(digits_value(decimal_text(n)) == digits_value(s) * 10 + digit_value(
            decimal_text(n).last(),
        ));
        assert(n == (n / 10) * 10 + n % 10);
    } else {
        assert(decimal_text(n).drop_last() =~= Seq::<char>::empty());
        assert(digits_value(decimal_text(n)) == digits_value(Seq::<char>::empty()) * 10
            + digit_value(decimal_text(n).last()));
    }
}

/// `text` padded on the left with `'0'` up to `width` characters.
pub open spec fn zero_padded(text: Seq<char>, width: nat) -> Seq<char> {
    if text.len() >= width {
        text
    } else {
        Seq::new((width - text.len()) as nat, |i: int| '0') + text
    }
}

fn digit_str(d: usize) -> (r: &'static str)
    requires
        d < 10,
    ensures
        r@ == seq![digit_char(d as int)],
{
    if d == 0 {
        proof { reveal_strlit("0"); }
        "0"
    } else if d == 1 {
        proof { reveal_strlit("1"); }
        "1"
    } else if d == 2 {
        proof { reveal_strlit("2"); }
        "2"
    } else if d == 3 {
        proof { reveal_strlit("3"); }
        "3"
    } else if d == 4 {
        proof { reveal_strlit("4"); }
        "4"
    } else if d == 5 {
        proof { reveal_strlit("5"); }
        "5"
    } else if d == 6 {
        proof { reveal_strlit("6"); }
        "6"
    } else if d == 7 {
        proof { reveal_strlit("7"); }
        "7"
    } else if d == 8 {
        proof { reveal_strlit("8"); }
        "8"
    } else {
        proof { reveal_strlit("9"); }
        "9"
    }
}

fn append_decimal(out: &mut String, n: usize)
    ensures
        final(out)@ == old(out)@ + decimal_text(n as nat),
    decreases n,
{
    if n >= 10 {
        append_decimal(out, n / 10);
    }
    out.append(digit_str(n % 10));
    assert(decimal_text(n as nat) =~= if n < 10 {
        seq![digit_char(n as int)]
    } else {
        decimal_text((n / 10) as nat).push(digit_char((n % 10) as int))
    });
}

/// The decimal notation of `n`, as `format!("{}", n)` writes it.
pub fn decimal(n: usize) -> (r: String)
    ensures
        r@ == decimal_text(n as nat),
{
    let mut s = String::new();
    append_decimal(&mut s, n);
    assert(s@ =~= decimal_text(n as nat));
    s
}

/// `needle` occurs in `hay` as a contiguous run of characters.
pub open spec fn contains_text(hay: Seq<char>, needle: Seq<char>) -> bool {
    exists|i: int|
        0 <= i && i + needle.len() <= hay.len() && #[trigger] hay.subrange(i, i + needle.len())
            == needle
}

/// The characters of `s`, one by one.
pub fn chars_of(s: &str) -> (r: Vec<char>)
    ensures
        r@ == s@,
{
    let n = s.unicode_len();
    let mut out: Vec<char> = Vec::new();
    let mut i: usize = 0;
    while i < n
        invariant
            i <= n,
            n == s@.len(),
            out@ == s@.subrange(0, i as int),
        decreases n - i,
    {
        out.push(s.get_char(i));
        assert(out@ =~= s@.subrange(0, i + 1));
        i = i + 1;
    }
    assert(out@ =~= s@);
    out
}

fn matches_at(hay: &Vec<char>, needle: &Vec<char>, at: usize) -> (r: bool)
    requires
        at + needle.len() <= hay.len(),
    ensures
        r == (hay@.subrange(at as int, at + needle.len()) == needle@),
{
    let mut k: usize = 0;
    while k < needle.len()
        invariant
            k <= needle.len(),
            at + needle.len() <= hay.len(),
            forall|j: int| 0 <= j < k ==> hay@[at + j] == needle@[j],
        decreases needle.len() - k,
    {
        if hay[at + k] != needle[k] {
            assert(hay@.subrange(at as int, at + needle.len())[k as int] != needle@[k as int]);
            return false;
        }
        k = k + 1;
    }
    assert(hay@.subrange(at as int, at + needle.len()) =~= needle@);
    true
}

/// Whether `needle` occurs in `hay`, as `str::contains` with a string
/// pattern answers (an empty `needle` occurs in every text).
pub fn text_contains(hay: &str, needle: &str) -> (r: bool)
    ensures
        r == contains_text(hay@, needle@),
{
    let h = chars_of(hay);
    let n = chars_of(needle);
    if n.len() == 0 {
        assert(contains_text(hay@, needle@)) by {
            assert(hay@.subrange(0int, 0int + needle@.len()) =~= needle@);
        }
        return true;
    }
    if n.len() > h.len() {
        return false;
    }
    let last = h.len() - n.len();
    let mut i: usize = 0;
    while i <= last
        invariant
            i <= last + 1,
            n.len() > 0,
            last + n.len() == h.len(),
            h@ == hay@,
            n@ == needle@,
            forall|j: int| 0 <= j < i ==> #[trigger] h@.subrange(j, j + n@.len()) != n@,
        decreases last + 1 - i,
    {
        if matches_at(&h, &n, i) {
            return true;
        }
        i = i + 1;
    }
    assert forall|j: int|
        0 <= j && j + needle@.len() <= hay@.len() implies #[trigger] hay@.subrange(
        j,
        j + needle@.len(),
    ) != needle@ by {
        assert(h@.subrange(j, j + n@.len()) != n@);
    }
    false
}

/// The pieces joined back with `','` between neighbours.
pub open spec fn join_commas(pieces: Seq<Seq<char>>) -> Seq<char>
    decreases pieces.len(),
{
    if pieces.len() == 0 {
        Seq::empty()
    } else if pieces.len() == 1 {
        pieces[0]
    } else {
        join_commas(pieces.drop_last()) + seq![','] + pieces.last()
    }
}

proof fn lemma_join_push(pieces: Seq<Seq<char>>, x: Seq<char>)
    requires
        pieces.len() >= 1,
    ensures
        join_commas(pieces.push(x)) == join_commas(pieces) + seq![','] + x,
{
    assert(pieces.push(x).drop_last() =~= pieces);
}

/// Splits `s` at every `','`, as `str::split(',')` does: the pieces hold no
/// comma, joined back with commas they give `s` again, and there is always at
/// least one piece (the empty text gives one empty piece).
pub fn split_commas(s: &str) -> (r: Vec<String>)
    ensures
        r.len() >= 1,
        join_commas(r.deep_view()) == s@,
        forall|i: int| 0 <= i < r.len() ==> !(#[trigger] r[i]@).contains(','),
{
    let cs = chars_of(s);
    let n = cs.len();
    let mut out: Vec<String> = Vec::new();
    let mut start: usize = 0;
    let mut i: usize = 0;
    while i < n
        invariant
            n == s@.len(),
            cs@ == s@,
            start <= i <= n,
            out.len() == 0 ==> start == 0,
            out.len() > 0 ==> join_commas(out.deep_view()) + seq![','] == s@.subrange(
                0,
                start as int,
            ),
            forall|k: int| 0 <= k < out.len() ==> !(#[trigger] out[k]@).contains(','),
            forall|k: int| start <= k < i ==> s@[k] != ',',
        decreases n - i,
    {
        if cs[i] == ',' {
            let piece = s.substring_char(start, i).to_owned();
            let ghost before = out.deep_view();
            out.push(piece);
            assert(out.deep_view() =~= before.push(piece@));
            assert(!piece@.contains(',')) by {
                if piece@.contains(',') {
                    let k = choose|k: int| 0 <= k < piece@.len() && piece@[k] == ',';
                    assert(s@[start + k] == ',');
                }
            }
            if out.len() == 1 {
                assert(join_commas(out.deep_view()) == piece@);
            } else {
                proof { lemma_join_push(before, piece@); }
            }
            assert(join_commas(out.deep_view()) + seq![','] =~= s@.subrange(0, i + 1));
            start = i + 1;
        }
        i = i + 1;
    }
    let piece = s.substring_char(start, n).to_owned();
    let ghost before = out.deep_view();
    out.push(piece);
    assert(out.deep_view() =~= before.push(piece@));
    assert(!piece@.contains(',')) by {
        if piece@.contains(',') {
            let k = choose|k: int| 0 <= k < piece@.len() && piece@[k] == ',';
            assert(s@[start + k] == ',');
        }
    }
    if out.len() == 1 {
        assert(join_commas(out.deep_view()) == piece@);
        assert(piece@ =~= s@);
    } else {
        proof { lemma_join_push(before, piece@); }
        assert(join_commas(out.deep_view()) =~= s@);
    }
    out
}

/// What `format!("{:?}", s)` writes for the text `s`: the text in double
/// quotes, with escapes.
pub uninterp spec fn debug_text(s: Seq<char>) -> Seq<char>;

/// Quoted rendering of a text, as the `Debug` impl of `str` writes it.
/// The contract names the result: the escaping rules are not restated.
#[verifier::external_body]
pub(crate) fn debug_str(s: &str) -> (r: String)
    ensures
        r@ == debug_text(s@),
{
    format!("{:?}", s)
}

/// The items' quoted renderings, separated by `", "`.
pub open spec fn debug_items(items: Seq<Seq<char>>) -> Seq<char>
    decreases items.len(),
{
    if items.len() == 0 {
        Seq::empty()
    } else if items.len() == 1 {
        debug_text(items[0])
    } else {
        debug_items(items.drop_last()) + seq![',', ' '] + debug_text(items.last())
    }
}

/// What `format!("{:?}", v)` writes for a list of texts: the items in
/// brackets, separated by a comma and a space.
pub open spec fn debug_list_text(items: Seq<Seq<char>>) -> Seq<char> {
    seq!['['] + debug_items(items) + seq![']']
}

/// Renders a list of texts as the `Debug` impl of `Vec<String>` does.
pub fn debug_list(items: &[String]) -> (r: String)
    ensures
        r@ == debug_list_text(items.deep_view()),
{
    let ghost v = items.deep_view();
    let mut body = String::new();
    let mut i: usize = 0;
    while i < items.len()
        invariant
            i <= items.len(),
            v == items.deep_view(),
            v.len() == items.len(),
            body@ == debug_items(v.take(i as int)),
        decreases items.len() - i,
    {
        if i > 0 {
            proof { reveal_strlit(", "); }
            body.append(", ");
        }
        let q = debug_str(items[i].as_str());
        body.append(q.as_str());
        assert(v.take(i + 1).drop_last() =~= v.take(i as int));
        assert(v[i as int] == items[i as int]@);
        if i == 0 {
            assert(body@ =~= debug_items(v.take(1)));
        } else {
            assert(body@ =~= debug_items(v.take(i + 1)));
        }
        i = i + 1;
    }
    assert(v.take(items.len() as int) =~= v);
    let mut r = String::new();
    proof {
        reveal_strlit("[");
        reveal_strlit("]");
    }
    r.append("[");
    r.append(body.as_str());
    r.append("]");
    assert(r@ =~= debug_list_text(v));
    r
}

} // verus!
