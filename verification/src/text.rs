//! Text as sequences of characters: searching, cutting and joining.

use vstd::prelude::*;

verus! {

/// `String::push` appends one character, as std documents it.
pub assume_specification[ String::push ](s: &mut String, c: char)
    ensures
        final(s)@ == old(s)@.push(c),
;

/// Each string of `items` as its sequence of characters.
pub open spec fn texts(items: Seq<String>) -> Seq<Seq<char>> {
    items.map_values(|s: String| s@)
}

/// `needle` stands in `hay` at position `at`.
pub open spec fn occurs_at(hay: Seq<char>, needle: Seq<char>, at: int) -> bool {
    &&& 0 <= at
    &&& at + needle.len() <= hay.len()
    &&& hay.subrange(at, at + needle.len()) == needle
}

/// `needle` stands somewhere in `hay`.
pub open spec fn occurs_in(hay: Seq<char>, needle: Seq<char>) -> bool {
    exists|at: int| occurs_at(hay, needle, at)
}

/// `at` is the first position at which `needle` stands in `hay`.
pub open spec fn is_first_at(hay: Seq<char>, needle: Seq<char>, at: int) -> bool {
    &&& occurs_at(hay, needle, at)
    &&& forall|earlier: int| 0 <= earlier < at ==> !occurs_at(hay, needle, earlier)
}

/// The bytes that `c` takes in UTF-8.
pub open spec fn utf8_width(c: char) -> nat {
    if (c as u32) < 0x80 {
        1
    } else if (c as u32) < 0x800 {
        2
    } else if (c as u32) < 0x1_0000 {
        3
    } else {
        4
    }
}

/// The bytes that `s` takes in UTF-8.
pub open spec fn utf8_len(s: Seq<char>) -> nat
    decreases s.len(),
{
    if s.len() == 0 {
        0
    } else {
        utf8_len(s.drop_last()) + utf8_width(s.last())
    }
}

/// The characters of `s`, in order.
pub fn chars_of(s: &str) -> (v: Vec<char>)
    ensures
        v@ == s@,
{
    let mut v: Vec<char> = Vec::new();
    for c in it: s.chars()
        invariant
            v@ == it.seq().take(it.index() as int),
            it.seq() == s@,
    {
        v.push(c);
    }
    v
}

/// The characters of `chars` from `from` up to `to`, as a string.
pub fn string_of(chars: &Vec<char>, from: usize, to: usize) -> (s: String)
    requires
        from <= to <= chars@.len(),
    ensures
        s@ == chars@.subrange(from as int, to as int),
{
    let mut s = String::new();
    let mut i: usize = from;
    while i < to
        invariant
            from <= i <= to <= chars@.len(),
            s@ == chars@.subrange(from as int, i as int),
        decreases to - i,
    {
        s.push(chars[i]);
        proof {
            assert(s@ =~= chars@.subrange(from as int, i + 1));
        }
        i += 1;
    }
    s
}

/// Whether `needle` stands in `hay` at position `at`.
pub fn stands_at(hay: &Vec<char>, needle: &Vec<char>, at: usize) -> (b: bool)
    ensures
        b == occurs_at(hay@, needle@, at as int),
{
    if at > hay.len() || needle.len() > hay.len() - at {
        return false;
    }
    let mut k: usize = 0;
    while k < needle.len()
        invariant
            k <= needle.len(),
            at + needle.len() <= hay.len(),
            forall|j: int| 0 <= j < k ==> hay@[at + j] == needle@[j],
        decreases needle.len() - k,
    {
        if hay[at + k] != needle[k] {
            proof {
                assert(hay@.subrange(at as int, at + needle@.len())[k as int] == hay@[at + k]);
            }
            return false;
        }
        k += 1;
    }
    proof {
        assert(hay@.subrange(at as int, at + needle@.len()) =~= needle@);
    }
    true
}

/// The first position at which `needle` stands in `hay`.
pub fn first_match(hay: &Vec<char>, needle: &Vec<char>) -> (r: Option<usize>)
    ensures
        match r {
            Some(at) => is_first_at(hay@, needle@, at as int),
            None => !occurs_in(hay@, needle@),
        },
{
    let mut at: usize = 0;
    while at < hay.len()
        invariant
            at <= hay.len(),
            forall|earlier: int| 0 <= earlier < at ==> !occurs_at(hay@, needle@, earlier),
        decreases hay.len() - at,
    {
        if stands_at(hay, needle, at) {
            return Some(at);
        }
        at += 1;
    }
    if stands_at(hay, needle, at) {
        Some(at)
    } else {
        None
    }
}

/// Whether `hay` begins with `prefix`.
pub fn begins_with(hay: &Vec<char>, prefix: &Vec<char>) -> (b: bool)
    ensures
        b == occurs_at(hay@, prefix@, 0),
{
    stands_at(hay, prefix, 0)
}

/// The first position of `c` in `chars`.
pub fn position(chars: &Vec<char>, c: char) -> (r: Option<usize>)
    ensures
        match r {
            Some(i) => chars@.index_of_first(c) == Some(i as int),
            None => chars@.index_of_first(c).is_none(),
        },
{
    let mut i: usize = 0;
    while i < chars.len()
        invariant
            i <= chars@.len(),
            forall|j: int| 0 <= j < i ==> chars@[j] != c,
        decreases chars.len() - i,
    {
        if chars[i] == c {
            proof {
                chars@.index_of_first_ensures(c);
                assert(chars@.contains(c));
                assert(chars@[i as int] == c);
            }
            return Some(i);
        }
        i += 1;
    }
    proof {
        chars@.index_of_first_ensures(c);
    }
    None
}

/// The last position of `c` in `chars`.
pub fn last_position(chars: &Vec<char>, c: char) -> (r: Option<usize>)
    ensures
        match r {
            Some(i) => chars@.index_of_last(c) == Some(i as int),
            None => chars@.index_of_last(c).is_none(),
        },
{
    let mut i: usize = chars.len();
    while i > 0
        invariant
            i <= chars@.len(),
            forall|j: int| i <= j < chars@.len() ==> chars@[j] != c,
        decreases i,
    {
        i -= 1;
        if chars[i] == c {
            proof {
                chars@.index_of_last_ensures(c);
                assert(chars@.contains(c));
                assert(chars@[i as int] == c);
            }
            return Some(i);
        }
    }
    proof {
        chars@.index_of_last_ensures(c);
    }
    None
}

/// The characters of `chars` from `from` up to `to`.
pub fn slice_of(chars: &Vec<char>, from: usize, to: usize) -> (part: Vec<char>)
    requires
        from <= to <= chars@.len(),
    ensures
        part@ == chars@.subrange(from as int, to as int),
{
    let mut part: Vec<char> = Vec::new();
    let mut i: usize = from;
    while i < to
        invariant
            from <= i <= to <= chars@.len(),
            part@ == chars@.subrange(from as int, i as int),
        decreases to - i,
    {
        part.push(chars[i]);
        proof {
            assert(part@ =~= chars@.subrange(from as int, i + 1));
        }
        i += 1;
    }
    part
}


/// What is left of `s` when every character but `keep` is taken off both of
/// its ends: from the first `keep` to the last, or nothing where `s` holds
/// no `keep`.
pub open spec fn trimmed_to(s: Seq<char>, keep: char) -> Seq<char> {
    match (s.index_of_first(keep), s.index_of_last(keep)) {
        (Some(first), Some(last)) => s.subrange(first, last + 1),
        _ => Seq::empty(),
    }
}

/// The second of the fields into which `sep` divides `s`: what stands
/// between the first `sep` and the next one, or the end. `None` where `s`
/// holds no `sep`.
pub open spec fn second_field(s: Seq<char>, sep: char) -> Option<Seq<char>> {
    match s.index_of_first(sep) {
        None => None,
        Some(first) => {
            let rest = s.skip(first + 1);
            match rest.index_of_first(sep) {
                None => Some(rest),
                Some(next) => Some(rest.take(next)),
            }
        },
    }
}

/// What follows the last `sep` in `s`; `None` where `s` holds no `sep`.
pub open spec fn after_last(s: Seq<char>, sep: char) -> Option<Seq<char>> {
    match s.index_of_last(sep) {
        None => None,
        Some(last) => Some(s.skip(last + 1)),
    }
}

/// What stands before the first `sep` in `s`; all of `s` where it holds no
/// `sep`.
pub open spec fn up_to_first(s: Seq<char>, sep: char) -> Seq<char> {
    match s.index_of_first(sep) {
        None => s,
        Some(first) => s.take(first),
    }
}

pub fn trim_to(chars: &Vec<char>, keep: char) -> (r: Vec<char>)
    ensures
        r@ == trimmed_to(chars@, keep),
{
    proof {
        chars@.index_of_first_ensures(keep);
        chars@.index_of_last_ensures(keep);
    }
    match (position(chars, keep), last_position(chars, keep)) {
        (Some(first), Some(last)) => {
            proof {
                chars@.index_of_first_ensures(keep);
                chars@.index_of_last_ensures(keep);
                assert(first < chars.len() && last < chars.len());
                assert(chars@[last as int] == keep);
            }
            slice_of(chars, first, last + 1)
        },
        _ => Vec::new(),
    }
}

pub fn second_field_of(chars: &Vec<char>, sep: char) -> (r: Option<Vec<char>>)
    ensures
        match r {
            Some(field) => second_field(chars@, sep) == Some(field@),
            None => second_field(chars@, sep).is_none(),
        },
{
    proof {
        chars@.index_of_first_ensures(sep);
    }
    match position(chars, sep) {
        None => None,
        Some(first) => {
            proof {
                chars@.index_of_first_ensures(sep);
                assert(first < chars.len());
            }
            let rest = slice_of(chars, first + 1, chars.len());
            proof {
                assert(rest@ =~= chars@.skip(first + 1));
                rest@.index_of_first_ensures(sep);
            }
            match position(&rest, sep) {
                None => Some(rest),
                Some(next) => {
                    let field = slice_of(&rest, 0, next);
                    proof {
                        assert(field@ =~= rest@.take(next as int));
                    }
                    Some(field)
                },
            }
        },
    }
}

pub fn after_last_of(chars: &Vec<char>, sep: char) -> (r: Option<Vec<char>>)
    ensures
        match r {
            Some(rest) => after_last(chars@, sep) == Some(rest@),
            None => after_last(chars@, sep).is_none(),
        },
{
    proof {
        chars@.index_of_last_ensures(sep);
    }
    match last_position(chars, sep) {
        None => None,
        Some(last) => {
            proof {
                chars@.index_of_last_ensures(sep);
                assert(last < chars.len());
            }
            let rest = slice_of(chars, last + 1, chars.len());
            proof {
                assert(rest@ =~= chars@.skip(last + 1));
            }
            Some(rest)
        },
    }
}

pub fn up_to_first_of(chars: &Vec<char>, sep: char) -> (r: Vec<char>)
    ensures
        r@ == up_to_first(chars@, sep),
{
    proof {
        chars@.index_of_first_ensures(sep);
    }
    match position(chars, sep) {
        None => {
            let all = slice_of(chars, 0, chars.len());
            proof {
                assert(all@ =~= chars@);
            }
            all
        },
        Some(first) => {
            let head = slice_of(chars, 0, first);
            proof {
                assert(head@ =~= chars@.take(first as int));
            }
            head
        },
    }
}

/// Whether `needle` stands somewhere in `hay`.
pub fn holds(hay: &Vec<char>, needle: &Vec<char>) -> (b: bool)
    ensures
        b == occurs_in(hay@, needle@),
{
    first_match(hay, needle).is_some()
}

/// Appends the characters of `more` to `chars`.
pub fn append_chars(chars: &mut Vec<char>, more: &Vec<char>)
    ensures
        final(chars)@ == old(chars)@ + more@,
{
    let mut i: usize = 0;
    while i < more.len()
        invariant
            i <= more.len(),
            chars@ == old(chars)@ + more@.take(i as int),
        decreases more.len() - i,
    {
        chars.push(more[i]);
        proof {
            assert(chars@ =~= old(chars)@ + more@.take(i + 1));
        }
        i += 1;
    }
    proof {
        assert(more@.take(i as int) =~= more@);
    }
}


/// Where no item before item `i` is kept and item `i` is, item `i` leads
/// what is kept.
pub proof fn lemma_first_kept<A>(items: Seq<A>, keep: spec_fn(A) -> bool, i: int)
    requires
        0 <= i < items.len(),
        keep(items[i]),
        forall|j: int| 0 <= j < i ==> !keep(#[trigger] items[j]),
    ensures
        items.filter(keep).len() > 0,
        items.filter(keep)[0] == items[i],
    decreases items.len(),
{
    reveal(Seq::filter);
    let front = items.drop_last();
    if i == items.len() - 1 {
        assert forall|j: int| 0 <= j < front.len() implies !keep(#[trigger] front[j]) by {
            assert(front[j] == items[j]);
        }
        lemma_none_kept(front, keep);
    } else {
        assert(front[i] == items[i]);
        assert forall|j: int| 0 <= j < i implies !keep(#[trigger] front[j]) by {
            assert(front[j] == items[j]);
        }
        lemma_first_kept(front, keep, i);
    }
}

/// Where no item is kept, nothing is left.
pub proof fn lemma_none_kept<A>(items: Seq<A>, keep: spec_fn(A) -> bool)
    requires
        forall|j: int| 0 <= j < items.len() ==> !keep(#[trigger] items[j]),
    ensures
        items.filter(keep).len() == 0,
    decreases items.len(),
{
    reveal(Seq::filter);
    if items.len() > 0 {
        let front = items.drop_last();
        assert forall|j: int| 0 <= j < front.len() implies !keep(#[trigger] front[j]) by {
            assert(front[j] == items[j]);
        }
        lemma_none_kept(front, keep);
        assert(items.last() == items[items.len() - 1]);
    }
}


/// Whether `a` and `b` hold the same characters.
pub fn same_chars(a: &Vec<char>, b: &Vec<char>) -> (same: bool)
    ensures
        same == (a@ == b@),
{
    if a.len() != b.len() {
        return false;
    }
    let same = stands_at(a, b, 0);
    proof {
        assert(a@.subrange(0, a@.len() as int) =~= a@);
    }
    same
}

/// Whether `a` and `b` are the same text.
pub fn same_text(a: &str, b: &str) -> (same: bool)
    ensures
        same == (a@ == b@),
{
    same_chars(&chars_of(a), &chars_of(b))
}


/// The first position at which `needle` stands in `hay`, where it stands
/// somewhere.
pub open spec fn first_occurrence(hay: Seq<char>, needle: Seq<char>) -> int {
    choose|at: int| is_first_at(hay, needle, at)
}

/// There is one first position at most.
pub proof fn lemma_first_occurrence(hay: Seq<char>, needle: Seq<char>, at: int)
    requires
        is_first_at(hay, needle, at),
    ensures
        occurs_in(hay, needle),
        first_occurrence(hay, needle) == at,
{
    let chosen = first_occurrence(hay, needle);
    assert(is_first_at(hay, needle, chosen));
    if chosen < at {
        assert(!occurs_at(hay, needle, chosen));
    } else if at < chosen {
        assert(!occurs_at(hay, needle, at));
    }
}

/// `s` without `prefix` at its front, as often as it stands there.
pub open spec fn without_leading(s: Seq<char>, prefix: Seq<char>) -> Seq<char>
    decreases s.len(),
{
    if prefix.len() > 0 && occurs_at(s, prefix, 0) {
        without_leading(s.skip(prefix.len() as int), prefix)
    } else {
        s
    }
}

/// The fields into which `sep` divides `s`.
pub open spec fn split_on(s: Seq<char>, sep: char) -> Seq<Seq<char>>
    decreases s.len(),
{
    if s.len() == 0 {
        seq![Seq::empty()]
    } else {
        let fields = split_on(s.drop_last(), sep);
        if s.last() == sep {
            fields.push(Seq::empty())
        } else {
            fields.drop_last().push(fields.last().push(s.last()))
        }
    }
}

/// The characters at the front of `s` that take exactly `bytes` bytes in
/// UTF-8; `None` where `s` is shorter or a character straddles the end.
pub open spec fn leading_bytes(s: Seq<char>, bytes: nat) -> Option<Seq<char>>
    decreases s.len(),
{
    if bytes == 0 {
        Some(Seq::empty())
    } else if s.len() == 0 || utf8_width(s[0]) > bytes {
        None
    } else {
        match leading_bytes(s.drop_first(), (bytes - utf8_width(s[0])) as nat) {
            Some(rest) => Some(seq![s[0]] + rest),
            None => None,
        }
    }
}

/// What `str::to_lowercase` makes of `text`: std's lowercase of each
/// character by the Unicode tables, which the text alone decides.
pub uninterp spec fn lowercase(text: Seq<char>) -> Seq<char>;

/// Calls `str::to_lowercase`. The contract names the result after the text
/// alone.
#[verifier::external_body]
pub(crate) fn to_lowercase(text: &str) -> (lower: String)
    ensures
        lower@ == lowercase(text@),
{
    text.to_lowercase()
}

/// Each list of `items` as its sequence of characters.
pub open spec fn char_lists(items: Seq<Vec<char>>) -> Seq<Seq<char>> {
    items.map_values(|chars: Vec<char>| chars@)
}

/// The bytes that `c` takes in UTF-8.
pub fn width_of(c: char) -> (width: usize)
    ensures
        width == utf8_width(c),
{
    let code: u32 = c as u32;
    if code < 0x80 {
        1
    } else if code < 0x800 {
        2
    } else if code < 0x1_0000 {
        3
    } else {
        4
    }
}

/// Whether `chars` takes exactly `bytes` bytes in UTF-8.
pub fn takes_bytes(chars: &Vec<char>, bytes: usize) -> (b: bool)
    ensures
        b == (utf8_len(chars@) == bytes),
{
    let mut total: usize = 0;
    let mut i: usize = 0;
    while i < chars.len()
        invariant
            i <= chars.len(),
            total == utf8_len(chars@.take(i as int)),
            total <= bytes,
        decreases chars.len() - i,
    {
        let width = width_of(chars[i]);
        proof {
            assert(chars@.take(i + 1).drop_last() =~= chars@.take(i as int));
            lemma_utf8_len_grows(chars@, i + 1);
        }
        if width > bytes - total {
            return false;
        }
        total += width;
        i += 1;
    }
    proof {
        assert(chars@.take(i as int) =~= chars@);
    }
    total == bytes
}

/// A text takes at least as many bytes as any of its beginnings.
pub proof fn lemma_utf8_len_grows(s: Seq<char>, n: int)
    requires
        0 <= n <= s.len(),
    ensures
        utf8_len(s.take(n)) <= utf8_len(s),
    decreases s.len() - n,
{
    if n < s.len() {
        lemma_utf8_len_grows(s, n + 1);
        assert(s.take(n + 1).drop_last() =~= s.take(n));
    } else {
        assert(s.take(n) =~= s);
    }
}

/// `chars` without `prefix` at its front, as often as it stands there.
pub fn strip_leading(chars: &Vec<char>, prefix: &Vec<char>) -> (rest: Vec<char>)
    ensures
        rest@ == without_leading(chars@, prefix@),
{
    let mut from: usize = 0;
    proof {
        assert(chars@.skip(0) =~= chars@);
    }
    while prefix.len() > 0 && stands_at(chars, prefix, from)
        invariant
            from <= chars.len(),
            without_leading(chars@, prefix@) == without_leading(chars@.skip(from as int), prefix@),
        decreases chars.len() - from,
    {
        proof {
            let here = chars@.skip(from as int);
            assert(here.subrange(0, prefix@.len() as int) =~= chars@.subrange(
                from as int,
                from + prefix@.len(),
            ));
            assert(occurs_at(here, prefix@, 0));
            assert(here.skip(prefix@.len() as int) =~= chars@.skip(from + prefix@.len()));
        }
        from += prefix.len();
    }
    proof {
        let here = chars@.skip(from as int);
        if prefix@.len() > 0 && from + prefix@.len() <= chars@.len() {
            assert(here.subrange(0, prefix@.len() as int) =~= chars@.subrange(
                from as int,
                from + prefix@.len(),
            ));
        }
        assert(!(prefix@.len() > 0 && occurs_at(here, prefix@, 0)));
    }
    let rest = slice_of(chars, from, chars.len());
    proof {
        assert(rest@ =~= chars@.skip(from as int));
    }
    rest
}

/// The fields into which `sep` divides `chars`.
pub fn split(chars: &Vec<char>, sep: char) -> (fields: Vec<Vec<char>>)
    ensures
        char_lists(fields@) == split_on(chars@, sep),
{
    let mut fields: Vec<Vec<char>> = Vec::new();
    let mut field: Vec<char> = Vec::new();
    let mut i: usize = 0;
    proof {
        assert(chars@.take(0) =~= Seq::empty());
        assert(char_lists(fields@).push(field@) =~= split_on(chars@.take(0), sep));
    }
    while i < chars.len()
        invariant
            i <= chars.len(),
            char_lists(fields@).push(field@) == split_on(chars@.take(i as int), sep),
        decreases chars.len() - i,
    {
        let ghost before = char_lists(fields@).push(field@);
        proof {
            assert(chars@.take(i + 1).drop_last() =~= chars@.take(i as int));
            assert(before.drop_last() =~= char_lists(fields@));
        }
        if chars[i] == sep {
            fields.push(field);
            field = Vec::new();
            proof {
                assert(char_lists(fields@) =~= before);
            }
        } else {
            field.push(chars[i]);
            proof {
                assert(char_lists(fields@).push(field@) =~= before.drop_last().push(
                    before.last().push(chars@[i as int]),
                ));
            }
        }
        i += 1;
    }
    proof {
        assert(chars@.take(i as int) =~= chars@);
    }
    let ghost before = char_lists(fields@);
    let ghost last = field@;
    fields.push(field);
    proof {
        assert(char_lists(fields@) =~= before.push(last));
    }
    fields
}

/// The characters at the front of `chars`, from `from` on, that take
/// exactly `bytes` bytes in UTF-8: the position behind them.
pub fn skip_bytes(chars: &Vec<char>, from: usize, bytes: usize) -> (r: Option<usize>)
    requires
        from <= chars.len(),
    ensures
        match r {
            Some(to) => from <= to <= chars.len() && leading_bytes(
                chars@.skip(from as int),
                bytes as nat,
            ) == Some(chars@.subrange(from as int, to as int)),
            None => leading_bytes(chars@.skip(from as int), bytes as nat).is_none(),
        },
    decreases bytes,
{
    if bytes == 0 {
        proof {
            assert(chars@.subrange(from as int, from as int) =~= Seq::empty());
        }
        return Some(from);
    }
    if from == chars.len() {
        return None;
    }
    let width = width_of(chars[from]);
    proof {
        assert(chars@.skip(from as int)[0] == chars@[from as int]);
        assert(chars@.skip(from as int).drop_first() =~= chars@.skip(from + 1));
    }
    if width > bytes {
        return None;
    }
    match skip_bytes(chars, from + 1, bytes - width) {
        Some(to) => {
            proof {
                assert(seq![chars@[from as int]] + chars@.subrange(from + 1, to as int)
                    =~= chars@.subrange(from as int, to as int));
            }
            Some(to)
        },
        None => None,
    }
}


/// The decimal digit for `d`.
pub open spec fn digit(d: nat) -> char {
    if d == 0 {
        '0'
    } else if d == 1 {
        '1'
    } else if d == 2 {
        '2'
    } else if d == 3 {
        '3'
    } else if d == 4 {
        '4'
    } else if d == 5 {
        '5'
    } else if d == 6 {
        '6'
    } else if d == 7 {
        '7'
    } else if d == 8 {
        '8'
    } else {
        '9'
    }
}

/// `n` written in decimal digits.
pub open spec fn decimal(n: nat) -> Seq<char>
    decreases n,
{
    if n < 10 {
        seq![digit(n)]
    } else {
        decimal(n / 10).push(digit(n % 10))
    }
}

fn digit_of(d: u64) -> (c: char)
    requires
        d < 10,
    ensures
        c == digit(d as nat),
{
    if d == 0 {
        '0'
    } else if d == 1 {
        '1'
    } else if d == 2 {
        '2'
    } else if d == 3 {
        '3'
    } else if d == 4 {
        '4'
    } else if d == 5 {
        '5'
    } else if d == 6 {
        '6'
    } else if d == 7 {
        '7'
    } else if d == 8 {
        '8'
    } else {
        '9'
    }
}

/// `n` written in decimal digits.
pub fn decimal_of(n: u64) -> (digits: Vec<char>)
    ensures
        digits@ == decimal(n as nat),
    decreases n,
{
    if n < 10 {
        let mut digits: Vec<char> = Vec::new();
        digits.push(digit_of(n));
        proof {
            assert(digits@ =~= seq![digit(n as nat)]);
        }
        digits
    } else {
        let mut digits = decimal_of(n / 10);
        digits.push(digit_of(n % 10));
        digits
    }
}

} // verus!
