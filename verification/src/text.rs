//! Small text helpers shared by the naming rules: ASCII case mapping,
//! the last component of a path, and the extension behind the last dot.

use vstd::prelude::*;

verus! {

/// `c` with an ASCII capital letter turned into its small form.
pub open spec fn lower_char(c: char) -> char {
    if 'A' <= c <= 'Z' {
        (c as u32 + 0x20) as char
    } else {
        c
    }
}

/// `c` with an ASCII small letter turned into its capital form.
pub open spec fn upper_char(c: char) -> char {
    if 'a' <= c <= 'z' {
        (c as u32 - 0x20) as char
    } else {
        c
    }
}

/// `s` with every ASCII capital letter turned into its small form.
pub open spec fn lower(s: Seq<char>) -> Seq<char> {
    s.map_values(|c: char| lower_char(c))
}

/// `s` with every ASCII small letter turned into its capital form.
pub open spec fn upper(s: Seq<char>) -> Seq<char> {
    s.map_values(|c: char| upper_char(c))
}

/// `str::to_ascii_lowercase`: a copy of the string in which the letters
/// `A` to `Z` are mapped to `a` to `z` and every other character stays.
pub assume_specification[ str::to_ascii_lowercase ](s: &str) -> (res: String)
    ensures
        res@ == lower(s@),
;

/// `str::to_ascii_uppercase`: a copy of the string in which the letters
/// `a` to `z` are mapped to `A` to `Z` and every other character stays.
pub assume_specification[ str::to_ascii_uppercase ](s: &str) -> (res: String)
    ensures
        res@ == upper(s@),
;

/// Is `c` a path separator? Archive formats use both kinds, depending
/// on where they were made.
pub open spec fn is_separator(c: char) -> bool {
    c == '/' || c == '\\'
}

/// What follows the last path separator of `path`; the whole of it
/// where there is none.
pub open spec fn base_name(path: Seq<char>) -> Seq<char>
    decreases path.len(),
{
    if path.len() == 0 || is_separator(path.last()) {
        Seq::empty()
    } else {
        base_name(path.drop_last()).push(path.last())
    }
}

/// Index of the last dot of `name`, if it has one.
pub open spec fn last_dot(name: Seq<char>) -> Option<int>
    decreases name.len(),
{
    if name.len() == 0 {
        None
    } else if name.last() == '.' {
        Some(name.len() - 1)
    } else {
        last_dot(name.drop_last())
    }
}

/// `name` up to its last dot; the whole of it where it has none.
pub open spec fn stem(name: Seq<char>) -> Seq<char> {
    match last_dot(name) {
        Some(i) => name.take(i),
        None => name,
    }
}

proof fn lemma_base_name(path: Seq<char>, from: int)
    requires
        0 <= from <= path.len(),
        from > 0 ==> is_separator(path[from - 1]),
        forall|k: int| from <= k < path.len() ==> !is_separator(#[trigger] path[k]),
    ensures
        base_name(path) == path.skip(from),
    decreases path.len(),
{
    if from == path.len() {
        assert(path.skip(from) =~= Seq::<char>::empty());
    } else {
        let shorter = path.drop_last();
        assert forall|k: int| from <= k < shorter.len() implies !is_separator(
            #[trigger] shorter[k],
        ) by {
            assert(shorter[k] == path[k]);
        }
        lemma_base_name(shorter, from);
        assert(!is_separator(path[path.len() - 1]));
        assert(shorter.skip(from).push(path.last()) =~= path.skip(from));
    }
}

proof fn lemma_last_dot(name: Seq<char>, at: Option<int>)
    requires
        match at {
            Some(i) => 0 <= i < name.len() && name[i] == '.' && forall|k: int|
                i < k < name.len() ==> #[trigger] name[k] != '.',
            None => forall|k: int| 0 <= k < name.len() ==> #[trigger] name[k] != '.',
        },
    ensures
        last_dot(name) == at,
    decreases name.len(),
{
    if name.len() > 0 && name.last() != '.' {
        let shorter = name.drop_last();
        match at {
            Some(i) => {
                assert forall|k: int| i < k < shorter.len() implies #[trigger] shorter[k] != '.' by {
                    assert(shorter[k] == name[k]);
                }
            },
            None => {
                assert forall|k: int| 0 <= k < shorter.len() implies #[trigger] shorter[k] != '.' by {
                    assert(shorter[k] == name[k]);
                }
            },
        }
        lemma_last_dot(shorter, at);
    } else if name.len() > 0 {
        assert(name[name.len() - 1] == '.');
    }
}

/// Do the two strings hold the same characters?
pub fn same_text(a: &str, b: &str) -> (same: bool)
    ensures
        same == (a@ == b@),
{
    let x = a.as_bytes();
    let y = b.as_bytes();
    proof {
        vstd::utf8::encode_utf8_decode_utf8(a@);
        vstd::utf8::encode_utf8_decode_utf8(b@);
    }
    if x.len() != y.len() {
        return false;
    }
    let mut k: usize = 0;
    while k < x.len()
        invariant
            k <= x.len(),
            x.len() == y.len(),
            x@ == vstd::utf8::encode_utf8(a@),
            y@ == vstd::utf8::encode_utf8(b@),
            forall|i: int| 0 <= i < k ==> #[trigger] x@[i] == y@[i],
        decreases x.len() - k,
    {
        if x[k] != y[k] {
            return false;
        }
        k += 1;
    }
    proof {
        assert(x@ =~= y@);
    }
    true
}

/// The last component of `path`.
pub fn base_name_of(path: &str) -> (base: &str)
    ensures
        base@ == base_name(path@),
{
    let mut from: usize = 0;
    let mut count: usize = 0;
    let len: usize = path.unicode_len();
    for c in it: path.chars()
        invariant
            len == path@.len(),
            it.seq() == path@,
            count == it.index(),
            from <= count,
            from > 0 ==> is_separator(path@[from - 1]),
            forall|k: int| from <= k < count ==> !is_separator(#[trigger] path@[k]),
    {
        count += 1;
        if c == '/' || c == '\\' {
            from = count;
        }
    }
    proof {
        lemma_base_name(path@, from as int);
    }
    path.substring_char(from, len)
}

/// Index of the last dot of `name`, counted in characters.
pub fn last_dot_of(name: &str) -> (at: Option<usize>)
    ensures
        match at {
            Some(i) => i < name@.len() && last_dot(name@) == Some(i as int),
            None => last_dot(name@) is None,
        },
{
    let mut at: Option<usize> = None;
    let mut count: usize = 0;
    let len: usize = name.unicode_len();
    for c in it: name.chars()
        invariant
            len == name@.len(),
            it.seq() == name@,
            count == it.index(),
            match at {
                Some(i) => i < count && name@[i as int] == '.' && forall|k: int|
                    i < k < count ==> #[trigger] name@[k] != '.',
                None => forall|k: int| 0 <= k < count ==> #[trigger] name@[k] != '.',
            },
    {
        if c == '.' {
            at = Some(count);
        }
        count += 1;
    }
    proof {
        match at {
            Some(i) => lemma_last_dot(name@, Some(i as int)),
            None => lemma_last_dot(name@, None),
        }
    }
    at
}

/// `a` followed by `b`.
pub fn join(a: &str, b: &str) -> (joined: String)
    ensures
        joined@ == a@ + b@,
{
    let mut joined = a.to_owned();
    joined.append(b);
    joined
}

/// The digit character for a number below ten.
pub open spec fn digit_char(d: nat) -> char {
    (0x30 + d) as char
}

/// A number in decimal, without leading zeros.
pub open spec fn decimal_digits(n: nat) -> Seq<char>
    decreases n,
{
    if n < 10 {
        seq![digit_char(n)]
    } else {
        decimal_digits(n / 10).push(digit_char(n % 10))
    }
}

fn digit_text(d: u64) -> (text: &'static str)
    requires
        d < 10,
    ensures
        text@ == seq![digit_char(d as nat)],
{
    proof {
        reveal_strlit("0");
        reveal_strlit("1");
        reveal_strlit("2");
        reveal_strlit("3");
        reveal_strlit("4");
        reveal_strlit("5");
        reveal_strlit("6");
        reveal_strlit("7");
        reveal_strlit("8");
        reveal_strlit("9");
    }
    let text = match d {
        0 => "0",
        1 => "1",
        2 => "2",
        3 => "3",
        4 => "4",
        5 => "5",
        6 => "6",
        7 => "7",
        8 => "8",
        _ => "9",
    };
    proof {
        assert(text@ =~= seq![digit_char(d as nat)]);
    }
    text
}

/// A number in decimal.
pub fn decimal_text(n: u64) -> (text: String)
    ensures
        text@ == decimal_digits(n as nat),
    decreases n,
{
    if n < 10 {
        digit_text(n).to_owned()
    } else {
        let mut text = decimal_text(n / 10);
        text.append(digit_text(n % 10));
        proof {
            assert(text@ =~= decimal_digits(n as nat));
        }
        text
    }
}

/// Case mapping changes ASCII letters only, and each of them to its
/// other form.
pub proof fn case_mapping_is_by_letter(s: Seq<char>, k: int)
    requires
        0 <= k < s.len(),
    ensures
        lower(s).len() == s.len(),
        upper(s).len() == s.len(),
        0x41 <= s[k] as int <= 0x5a ==> lower(s)[k] as int == s[k] as int + 32,
        !(0x41 <= s[k] as int <= 0x5a) ==> lower(s)[k] == s[k],
        0x61 <= s[k] as int <= 0x7a ==> upper(s)[k] as int == s[k] as int - 32,
        !(0x61 <= s[k] as int <= 0x7a) ==> upper(s)[k] == s[k],
{
}

/// The last component of a path is what is put behind a directory, with
/// either separator; a name without a directory is its own.
pub proof fn last_component_follows_the_directory(dir: Seq<char>, name: Seq<char>)
    requires
        dir.len() == 0 || dir.last() == '/' || dir.last() == '\\',
        forall|k: int|
            0 <= k < name.len() ==> (#[trigger] name[k]) != '/' && name[k] != '\\',
    ensures
        base_name(dir + name) == name,
{
    let path = dir + name;
    let from = dir.len() as int;
    if from > 0 {
        assert(path[from - 1] == dir.last());
    }
    assert forall|k: int| from <= k < path.len() implies !is_separator(#[trigger] path[k]) by {
        assert(path[k] == name[k - from]);
    }
    lemma_base_name(path, from);
    assert(path.skip(from) =~= name);
}

/// The last dot separates a stem from an extension, whatever dots the
/// stem holds; a name without a dot is its own stem.
pub proof fn last_dot_separates(head: Seq<char>, tail: Seq<char>)
    requires
        forall|k: int| 0 <= k < tail.len() ==> #[trigger] tail[k] != '.',
    ensures
        last_dot(head + seq!['.'] + tail) == Some(head.len() as int),
        stem(head + seq!['.'] + tail) == head,
        last_dot(tail) is None,
        stem(tail) == tail,
{
    let name = head + seq!['.'] + tail;
    let at = head.len() as int;
    assert(name[at] == '.');
    assert forall|k: int| at < k < name.len() implies #[trigger] name[k] != '.' by {
        assert(name[k] == tail[k - at - 1]);
    }
    lemma_last_dot(name, Some(at));
    assert(name.take(at) =~= head);
    lemma_last_dot(tail, None);
}

/// The number that decimal digits stand for.
pub open spec fn decimal_value(digits: Seq<char>) -> int
    decreases digits.len(),
{
    if digits.len() == 0 {
        0
    } else {
        decimal_value(digits.drop_last()) * 10 + (digits.last() as int - 0x30)
    }
}

/// A number in decimal reads back as the number, in digits only and
/// without a zero in front of others.
pub proof fn decimal_reads_back(n: nat)
    ensures
        decimal_value(decimal_digits(n)) == n,
        decimal_digits(n).len() >= 1,
        forall|k: int|
            0 <= k < decimal_digits(n).len() ==> 0x30 <= (#[trigger] decimal_digits(n)[k]) as int
                <= 0x39,
        decimal_digits(n).len() > 1 ==> decimal_digits(n)[0] as int != 0x30,
        n >= 1 ==> decimal_digits(n)[0] as int != 0x30,
    decreases n,
{
    let digits = decimal_digits(n);
    assert(digit_char(n % 10) as int == 0x30 + n % 10);
    if n < 10 {
        assert(digits.drop_last() =~= Seq::empty());
        assert(decimal_value(digits.drop_last()) == 0);
        assert(digits.last() == digit_char(n));
    } else {
        decimal_reads_back(n / 10);
        assert(digits.drop_last() =~= decimal_digits(n / 10));
        assert(digits.last() == digit_char(n % 10));
    }
}

/// Is `text` the word `word`, each letter in either case? The word is
/// written in small letters.
pub open spec fn spells(text: Seq<char>, word: Seq<char>) -> bool {
    &&& text.len() == word.len()
    &&& forall|k: int|
        0 <= k < text.len() ==> (#[trigger] text[k] == word[k] || (0x61 <= word[k] as int <= 0x7a
            && text[k] as int + 32 == word[k] as int))
}

/// Does `word` hold no capital letters?
pub open spec fn no_capitals(word: Seq<char>) -> bool {
    forall|k: int| 0 <= k < word.len() ==> !(0x41 <= (#[trigger] word[k]) as int <= 0x5a)
}

pub(crate) proof fn lemma_spells(text: Seq<char>, word: Seq<char>)
    requires
        no_capitals(word),
    ensures
        spells(text, word) <==> lower(text) == word,
{
    if spells(text, word) {
        assert forall|k: int| 0 <= k < text.len() implies lower(text)[k] == word[k] by {
            assert(!(0x41 <= word[k] as int <= 0x5a));
            case_mapping_is_by_letter(text, k);
            if text[k] != word[k] {
                assert(text[k] as int + 32 == word[k] as int);
                assert(lower(text)[k] as int == word[k] as int);
            }
        }
        assert(lower(text) =~= word);
    }
    if lower(text) == word {
        assert forall|k: int| 0 <= k < text.len() implies (#[trigger] text[k] == word[k] || (0x61
            <= word[k] as int <= 0x7a && text[k] as int + 32 == word[k] as int)) by {
            case_mapping_is_by_letter(text, k);
        }
    }
}

pub(crate) proof fn lemma_encode_concat(a: Seq<char>, b: Seq<char>)
    ensures
        vstd::utf8::encode_utf8(a + b) == vstd::utf8::encode_utf8(a) + vstd::utf8::encode_utf8(b),
    decreases a.len(),
{
    let all = vstd::utf8::encode_utf8(a + b);
    if a.len() == 0 {
        assert(a + b =~= b);
        assert(all =~= vstd::utf8::encode_utf8(a) + vstd::utf8::encode_utf8(b));
    } else {
        lemma_encode_concat(a.drop_first(), b);
        assert((a + b).drop_first() =~= a.drop_first() + b);
        assert(all =~= vstd::utf8::encode_utf8(a) + vstd::utf8::encode_utf8(b));
    }
}

proof fn lemma_char_range(c: char)
    ensures
        c as u32 == c as int,
{
}

/// A character whose last byte is an ASCII byte is that byte.
pub(crate) proof fn lemma_last_byte(s: Seq<char>)
    requires
        s.len() > 0,
        vstd::utf8::encode_utf8(s).len() > 0,
        vstd::utf8::encode_utf8(s).last() < 0x80,
    ensures
        s.last() as int == vstd::utf8::encode_utf8(s).last(),
        vstd::utf8::encode_utf8(s) == vstd::utf8::encode_utf8(s.drop_last()).push(
            vstd::utf8::encode_utf8(s).last(),
        ),
{
    lemma_char_range(s.last());
    let one = seq![s.last()];
    let head = s.drop_last();
    assert(s =~= head + one);
    lemma_encode_concat(head, one);
    let c = s.last() as u32;
    assert(one.drop_first() =~= Seq::empty());
    assert(vstd::utf8::encode_utf8(one.drop_first()) =~= Seq::empty());
    let bytes = vstd::utf8::encode_scalar(c);
    assert(vstd::utf8::encode_utf8(one) =~= bytes);
    assert(bytes.last() == vstd::utf8::encode_utf8(s).last());
    assert(0x80 | ((c & 0x3F) as u8) >= 0x80) by (bit_vector);
    if vstd::utf8::has_width_1_encoding(c) {
        assert((c & 0x7F) as u8 == c) by (bit_vector)
            requires
                c <= 0x7f,
        ;
        assert(bytes =~= seq![c as u8]);
        assert(vstd::utf8::encode_utf8(s) =~= vstd::utf8::encode_utf8(head).push(c as u8));
    } else {
        assert(bytes.last() >= 0x80);
    }
}

} // verus!
