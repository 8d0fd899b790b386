//! Text operations on which the rest of the library is built.

use vstd::prelude::*;
use vstd::string::*;

verus! {

/// The parts of `s` between the occurrences of `sep`, in order. There is always
/// at least one part, and a part may be empty.
pub open spec fn pieces(s: Seq<char>, sep: char) -> Seq<Seq<char>>
    decreases s.len(),
{
    match s.index_of_first(sep) {
        Some(i) => {
            proof {
                s.index_of_first_ensures(sep);
            }
            seq![s.take(i)] + pieces(s.skip(i + 1), sep)
        },
        None => seq![s],
    }
}

/// The part of `s` with the given number, counted from 0, if there are so many.
pub open spec fn piece(s: Seq<char>, sep: char, n: nat) -> Option<Seq<char>> {
    if n < pieces(s, sep).len() {
        Some(pieces(s, sep)[n as int])
    } else {
        None
    }
}

/// What follows the last occurrence of `sep` in `s`, if there is one.
pub open spec fn after_last(s: Seq<char>, sep: char) -> Option<Seq<char>> {
    match s.index_of_last(sep) {
        Some(i) => Some(s.skip(i + 1)),
        None => None,
    }
}

/// The elements of `list`, with `sep` between each two of them.
pub open spec fn joined(list: Seq<Seq<char>>, sep: Seq<char>) -> Seq<char>
    decreases list.len(),
{
    if list.len() == 0 {
        Seq::empty()
    } else if list.len() == 1 {
        list[0]
    } else {
        joined(list.drop_last(), sep) + sep + list.last()
    }
}

/// The decimal digit of a number below ten.
pub open spec fn digit(n: nat) -> char {
    if n == 0 {
        '0'
    } else if n == 1 {
        '1'
    } else if n == 2 {
        '2'
    } else if n == 3 {
        '3'
    } else if n == 4 {
        '4'
    } else if n == 5 {
        '5'
    } else if n == 6 {
        '6'
    } else if n == 7 {
        '7'
    } else if n == 8 {
        '8'
    } else {
        '9'
    }
}

/// The number `n` in decimal, without leading zeros.
pub open spec fn decimal(n: nat) -> Seq<char>
    decreases n,
{
    if n < 10 {
        seq![digit(n)]
    } else {
        decimal(n / 10).push(digit(n % 10))
    }
}

/// The views of the strings of a list.
pub open spec fn views(list: Seq<String>) -> Seq<Seq<char>> {
    list.map_values(|s: String| s@)
}

/// The view of an optional string.
pub open spec fn opt_view(s: Option<String>) -> Option<Seq<char>> {
    match s {
        Some(s) => Some(s@),
        None => None,
    }
}

/// The view of an optional string slice.
pub open spec fn opt_str_view(s: Option<&str>) -> Option<Seq<char>> {
    match s {
        Some(s) => Some(s@),
        None => None,
    }
}

/// The characters of `s`.
pub fn chars_of(s: &str) -> (r: Vec<char>)
    ensures
        r@ == s@,
{
    let mut r: Vec<char> = Vec::new();
    for c in it: s.chars()
        invariant
            it.seq() == s@,
            r@ == s@.take(it.index()),
    {
        r.push(c);
    }
    r
}

/// The place of the last occurrence of `c` in `chars`.
fn last_index(chars: &Vec<char>, c: char) -> (r: Option<usize>)
    ensures
        match r {
            Some(i) => chars@.index_of_last(c) == Some(i as int) && i < chars@.len(),
            None => chars@.index_of_last(c) is None,
        },
{
    proof {
        chars@.index_of_last_ensures(c);
    }
    let mut i: usize = chars.len();
    while i > 0
        invariant
            i <= chars@.len(),
            forall|j: int| i <= j < chars@.len() ==> chars@[j] != c,
            match chars@.index_of_last(c) {
                Some(index) => {
                    &&& 0 <= index < chars@.len()
                    &&& chars@[index] == c
                    &&& forall|j: int| index < j < chars@.len() ==> chars@[j] != c
                },
                None => !chars@.contains(c),
            },
        decreases i,
    {
        i -= 1;
        if chars[i] == c {
            assert(chars@.contains(c));
            return Some(i);
        }
    }
    None
}

/// Whether `c` occurs in `s`.
pub fn contains_char(s: &str, c: char) -> (r: bool)
    ensures
        r == s@.contains(c),
{
    let chars = chars_of(s);
    proof {
        chars@.index_of_last_ensures(c);
    }
    last_index(&chars, c).is_some()
}

/// What follows the last occurrence of `sep` in `s`, if there is one.
pub fn text_after_last(s: &str, sep: char) -> (r: Option<&str>)
    ensures
        match r {
            Some(rest) => after_last(s@, sep) == Some(rest@),
            None => after_last(s@, sep) is None,
        },
{
    let chars = chars_of(s);
    let len: usize = chars.len();
    match last_index(&chars, sep) {
        Some(i) => Some(s.substring_char(i + 1, len)),
        None => None,
    }
}

/// Whether `a` and `b` are the same text.
pub fn same_text(a: &str, b: &str) -> (r: bool)
    ensures
        r == (a@ == b@),
{
    let left = chars_of(a);
    let right = chars_of(b);
    if left.len() != right.len() {
        return false;
    }
    for i in 0..left.len()
        invariant
            left@ == a@,
            right@ == b@,
            left@.len() == right@.len(),
            left@.take(i as int) == right@.take(i as int),
    {
        if left[i] != right[i] {
            return false;
        }
    }
    assert(left@.take(left@.len() as int) == left@);
    assert(right@.take(right@.len() as int) == right@);
    true
}

/// The part of `s` with the given number, counted from 0, among the parts
/// between the occurrences of `sep`.
pub fn nth_piece(s: &str, sep: char, n: usize) -> (r: Option<&str>)
    ensures
        match r {
            Some(part) => piece(s@, sep, n as nat) == Some(part@),
            None => piece(s@, sep, n as nat) is None,
        },
{
    let chars = chars_of(s);
    let mut start: usize = 0;
    let mut skipped: usize = 0;
    let mut i: usize = 0;
    assert(s@.skip(0) == s@);
    while i < chars.len()
        invariant
            chars@ == s@,
            start <= i <= chars@.len(),
            skipped <= n,
            forall|j: int| start <= j < i ==> chars@[j] != sep,
            piece(s@, sep, n as nat) == piece(s@.skip(start as int), sep, (n - skipped) as nat),
            skipped <= start,
        decreases chars@.len() - i,
    {
        if chars[i] == sep {
            let ghost rest = s@.skip(start as int);
            proof {
                lemma_pieces_at(rest, sep, i - start);
                assert(rest.take(i - start) == s@.subrange(start as int, i as int));
                assert(rest.skip(i - start + 1) == s@.skip(i + 1));
            }
            if skipped == n {
                return Some(s.substring_char(start, i));
            }
            start = i + 1;
            skipped += 1;
        }
        i += 1;
    }
    proof {
        let rest = s@.skip(start as int);
        rest.index_of_first_ensures(sep);
        assert(!rest.contains(sep));
        assert(rest == s@.subrange(start as int, s@.len() as int));
    }
    if skipped == n {
        Some(s.substring_char(start, chars.len()))
    } else {
        None
    }
}

/// Where `sep` first occurs at `i`, the parts are what stands before it and the
/// parts of what follows.
proof fn lemma_pieces_at(s: Seq<char>, sep: char, i: int)
    requires
        0 <= i < s.len(),
        s[i] == sep,
        forall|j: int| 0 <= j < i ==> s[j] != sep,
    ensures
        pieces(s, sep) == seq![s.take(i)] + pieces(s.skip(i + 1), sep),
{
    s.index_of_first_ensures(sep);
    assert(s.contains(sep));
}

/// The parts of a text that starts with a part and a separator: that part, and
/// the parts of what follows.
pub proof fn lemma_pieces_of_concatenation(first: Seq<char>, sep: char, rest: Seq<char>)
    requires
        !first.contains(sep),
    ensures
        pieces(first + seq![sep] + rest, sep) == seq![first] + pieces(rest, sep),
{
    let s = first + seq![sep] + rest;
    assert forall|j: int| 0 <= j < first.len() implies s[j] != sep by {
        assert(s[j] == first[j]);
    }
    lemma_pieces_at(s, sep, first.len() as int);
    assert(s.take(first.len() as int) == first);
    assert(s.skip(first.len() as int + 1) == rest);
}

/// What follows the last separator is what stands behind it, where that holds
/// no separator.
pub proof fn lemma_after_last_of_concatenation(before: Seq<char>, sep: char, rest: Seq<char>)
    requires
        !rest.contains(sep),
    ensures
        after_last(before + seq![sep] + rest, sep) == Some(rest),
{
    let s = before + seq![sep] + rest;
    s.index_of_last_ensures(sep);
    assert(s[before.len() as int] == sep);
    assert(s.contains(sep));
    let i = s.index_of_last(sep)->0;
    if i > before.len() {
        assert(rest[i - before.len() - 1] == sep);
    }
    assert(s.skip(before.len() as int + 1) == rest);
}

/// Splitting loses nothing: the parts, joined again by the separator, are the
/// text that was split.
pub proof fn lemma_pieces_join_back(s: Seq<char>, sep: char)
    ensures
        joined(pieces(s, sep), seq![sep]) == s,
    decreases s.len(),
{
    s.index_of_first_ensures(sep);
    match s.index_of_first(sep) {
        Some(i) => {
            let rest = s.skip(i + 1);
            lemma_pieces_join_back(rest, sep);
            lemma_pieces_nonempty(rest, sep);
            lemma_joined_prepend(s.take(i), pieces(rest, sep), seq![sep]);
            assert(s == s.take(i) + seq![sep] + rest);
        },
        None => {},
    }
}

/// Every text has at least one part.
pub proof fn lemma_pieces_nonempty(s: Seq<char>, sep: char)
    ensures
        pieces(s, sep).len() > 0,
{
}

/// No part holds the separator.
pub proof fn lemma_pieces_free_of_separator(s: Seq<char>, sep: char, n: int)
    requires
        0 <= n < pieces(s, sep).len(),
    ensures
        !pieces(s, sep)[n].contains(sep),
    decreases s.len(),
{
    s.index_of_first_ensures(sep);
    match s.index_of_first(sep) {
        Some(i) => {
            if n > 0 {
                lemma_pieces_free_of_separator(s.skip(i + 1), sep, n - 1);
            }
        },
        None => {},
    }
}

/// Joining a list with one more element in front puts that element and the
/// separator in front of the joined rest.
proof fn lemma_joined_prepend(first: Seq<char>, rest: Seq<Seq<char>>, sep: Seq<char>)
    requires
        rest.len() > 0,
    ensures
        joined(seq![first] + rest, sep) == first + sep + joined(rest, sep),
    decreases rest.len(),
{
    let all = seq![first] + rest;
    assert(all.last() == rest.last());
    assert(all.drop_last() == seq![first] + rest.drop_last());
    if rest.len() == 1 {
        assert(rest.drop_last() == Seq::<Seq<char>>::empty());
        assert(all.drop_last() == seq![first]);
        assert(joined(seq![first], sep) == first);
    } else {
        lemma_joined_prepend(first, rest.drop_last(), sep);
        assert(first + sep + joined(rest.drop_last(), sep) + sep + rest.last() == first + sep + (
        joined(rest.drop_last(), sep) + sep + rest.last()));
    }
}

/// The elements of `list`, with `sep` between each two of them.
pub fn join(list: &Vec<String>, sep: &str) -> (r: String)
    ensures
        r@ == joined(views(list@), sep@),
{
    let mut r = String::new();
    for i in 0..list.len()
        invariant
            r@ == joined(views(list@).take(i as int), sep@),
    {
        let ghost so_far = views(list@).take(i as int);
        let ghost next = views(list@).take(i + 1);
        assert(next.drop_last() == so_far);
        assert(next.last() == list@[i as int]@);
        if i > 0 {
            r.append(sep);
        }
        r.append(list[i].as_str());
    }
    assert(views(list@).take(list@.len() as int) == views(list@));
    r
}

/// The decimal digit of a number below ten, as a string.
fn digit_text(n: usize) -> (r: &'static str)
    requires
        n < 10,
    ensures
        r@ == seq![digit(n as nat)],
{
    proof {
        reveal_strlit("0");
        reveal_strlit("1");
        reveal_strlit("2");
        reveal_strlit("3");
        reveal_strlit("4");
        reveal_strlit("5");
        reveal_strlit("6");
        reveal_strlit("7");
        reveal_strlit("8");
        reveal_strlit("9");
    }
    if n == 0 {
        "0"
    } else if n == 1 {
        "1"
    } else if n == 2 {
        "2"
    } else if n == 3 {
        "3"
    } else if n == 4 {
        "4"
    } else if n == 5 {
        "5"
    } else if n == 6 {
        "6"
    } else if n == 7 {
        "7"
    } else if n == 8 {
        "8"
    } else {
        "9"
    }
}

/// The number `n` in decimal, without leading zeros.
pub fn decimal_text(n: usize) -> (r: String)
    ensures
        r@ == decimal(n as nat),
    decreases n,
{
    let mut r = if n < 10 {
        String::new()
    } else {
        decimal_text(n / 10)
    };
    r.append(digit_text(n % 10));
    assert(n < 10 ==> r@ == seq![digit(n as nat)]);
    r
}

/// An owned copy of an optional string slice.
pub fn owned_opt(s: Option<&str>) -> (r: Option<String>)
    ensures
        opt_view(r) == opt_str_view(s),
{
    match s {
        Some(s) => Some(s.to_owned()),
        None => None,
    }
}

/// A copy of an optional string.
pub fn clone_opt(s: &Option<String>) -> (r: Option<String>)
    ensures
        opt_view(r) == opt_view(*s),
{
    match s {
        Some(s) => Some(s.clone()),
        None => None,
    }
}

/// The first part of a text is what stands before the first separator, the
/// other parts are those of what stands behind it, and a text without a
/// separator is its only part.
pub proof fn lemma_piece_by_piece(first: Seq<char>, sep: char, rest: Seq<char>, n: nat)
    requires
        !first.contains(sep),
    ensures
        piece(first + seq![sep] + rest, sep, 0) == Some(first),
        piece(first + seq![sep] + rest, sep, n + 1) == piece(rest, sep, n),
        piece(first, sep, 0) == Some(first),
        piece(first, sep, n + 1) is None,
{
    lemma_pieces_of_concatenation(first, sep, rest);
    first.index_of_first_ensures(sep);
}

/// What follows the last separator holds none and ends the text, behind one. It
/// is missing if and only if the text holds no separator.
pub proof fn lemma_after_last_ends_text(s: Seq<char>, sep: char)
    ensures
        match after_last(s, sep) {
            Some(rest) => {
                &&& rest.len() < s.len()
                &&& !rest.contains(sep)
                &&& s == s.take(s.len() - rest.len() - 1) + seq![sep] + rest
            },
            None => !s.contains(sep),
        },
{
    s.index_of_last_ensures(sep);
}

/// Joining nothing gives the empty text, joining one text gives that text, and
/// one more element at the end adds the separator and itself.
pub proof fn lemma_joined_grows(list: Seq<Seq<char>>, sep: Seq<char>, element: Seq<char>)
    ensures
        joined(Seq::empty(), sep) == Seq::<char>::empty(),
        joined(seq![element], sep) == element,
        list.len() > 0 ==> joined(list.push(element), sep) == joined(list, sep) + sep + element,
{
    assert(list.push(element).drop_last() == list);
}

/// The number that a text of decimal digits stands for.
pub open spec fn number(digits: Seq<char>) -> int
    decreases digits.len(),
{
    if digits.len() == 0 {
        0
    } else {
        10 * number(digits.drop_last()) + (digits.last() as int - '0' as int)
    }
}

/// A number in decimal reads back as that number. It consists of digits alone,
/// and only zero itself starts with a zero.
pub proof fn lemma_decimal_reads_back(n: nat)
    ensures
        number(decimal(n)) == n,
        decimal(n).len() > 0,
        forall|i: int| 0 <= i < decimal(n).len() ==> '0' <= #[trigger] decimal(n)[i] <= '9',
        decimal(n)[0] == '0' ==> n == 0 && decimal(n).len() == 1,
    decreases n,
{
    if n < 10 {
        assert(decimal(n).drop_last() == Seq::<char>::empty());
        assert(number(Seq::<char>::empty()) == 0);
    } else {
        lemma_decimal_reads_back(n / 10);
        assert(decimal(n).drop_last() == decimal(n / 10));
    }
}

/// The views of strings, of optional strings and of lists of them are those of
/// the strings that they hold.
pub proof fn lemma_string_views(list: Seq<String>, s: String, slice: &str)
    ensures
        views(list).len() == list.len(),
        forall|i: int| 0 <= i < list.len() ==> #[trigger] views(list)[i] == list[i]@,
        opt_view(Some(s)) == Some(s@),
        opt_view(None) == None::<Seq<char>>,
        opt_str_view(Some(slice)) == Some(slice@),
        opt_str_view(None) == None::<Seq<char>>,
{
}

} // verus!
