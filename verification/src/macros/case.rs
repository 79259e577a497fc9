//! Case conversions for identifier names.

use crate::text::chars_of;
use vstd::prelude::*;

verus! {

/// Whether a character beyond ASCII has Unicode's uppercase property.
pub uninterp spec fn uppercase(c: char) -> bool;

/// Whether a character beyond ASCII has Unicode's lowercase property.
pub uninterp spec fn lowercase(c: char) -> bool;

/// Unicode's lowercase mapping of a character beyond ASCII.
pub uninterp spec fn lowered(c: char) -> Seq<char>;

/// Unicode's uppercase mapping of a character beyond ASCII.
pub uninterp spec fn raised(c: char) -> Seq<char>;

/// `char::is_uppercase`: the uppercase property. Of ASCII the letters `A` to
/// `Z` have it; for the rest it is a function of the character alone.
#[verifier::external_body]
fn is_uppercase(c: char) -> (b: bool)
    ensures
        b == if is_ascii(c) {
            is_capital(c)
        } else {
            uppercase(c)
        },
{
    c.is_uppercase()
}

/// `char::is_lowercase`: the lowercase property. Of ASCII the letters `a` to
/// `z` have it; for the rest it is a function of the character alone.
#[verifier::external_body]
fn is_lowercase(c: char) -> (b: bool)
    ensures
        b == if is_ascii(c) {
            is_small(c)
        } else {
            lowercase(c)
        },
{
    c.is_lowercase()
}

/// `char::to_lowercase`: the lowercase mapping. It takes `A` to `Z` to `a` to
/// `z` and keeps the rest of ASCII; beyond that it is a function of the
/// character alone.
#[verifier::external_body]
fn to_lowercase(c: char) -> (text: String)
    ensures
        text@ == if is_ascii(c) {
            seq![small(c)]
        } else {
            lowered(c)
        },
{
    c.to_lowercase().collect()
}

/// `char::to_uppercase`: the uppercase mapping. It takes `a` to `z` to `A` to
/// `Z` and keeps the rest of ASCII; beyond that it is a function of the
/// character alone.
#[verifier::external_body]
fn to_uppercase(c: char) -> (text: String)
    ensures
        text@ == if is_ascii(c) {
            seq![capital(c)]
        } else {
            raised(c)
        },
{
    c.to_uppercase().collect()
}

/// Whether a character is in ASCII.
pub open spec fn is_ascii(c: char) -> bool {
    (c as u32) < 128
}

/// Whether a character is one of `A` to `Z`.
pub open spec fn is_capital(c: char) -> bool {
    'A' <= c <= 'Z'
}

/// Whether a character is one of `a` to `z`.
pub open spec fn is_small(c: char) -> bool {
    'a' <= c <= 'z'
}

/// The small form of an ASCII character.
pub open spec fn small(c: char) -> char {
    if is_capital(c) {
        (c as u32 + 32) as char
    } else {
        c
    }
}

/// The capital form of an ASCII character.
pub open spec fn capital(c: char) -> char {
    if is_small(c) {
        (c as u32 - 32) as char
    } else {
        c
    }
}

/// A character with its case.
pub struct Letter {
    pub character: char,
    pub uppercase: bool,
    pub lowercase: bool,
    /// Its lowercase mapping.
    pub lowered: String,
    /// Its uppercase mapping.
    pub raised: String,
}

/// A character with its case, as mathematics.
pub struct LetterView {
    pub character: char,
    pub uppercase: bool,
    pub lowercase: bool,
    pub lowered: Seq<char>,
    pub raised: Seq<char>,
}

impl View for Letter {
    type V = LetterView;

    open spec fn view(&self) -> LetterView {
        LetterView {
            character: self.character,
            uppercase: self.uppercase,
            lowercase: self.lowercase,
            lowered: self.lowered@,
            raised: self.raised@,
        }
    }
}

/// The letters as mathematics.
pub open spec fn letter_views(letters: Seq<Letter>) -> Seq<LetterView> {
    letters.map_values(|letter: Letter| letter@)
}

/// A character with the case Unicode gives it.
pub open spec fn spelled(c: char) -> LetterView {
    LetterView {
        character: c,
        uppercase: if is_ascii(c) {
            is_capital(c)
        } else {
            uppercase(c)
        },
        lowercase: if is_ascii(c) {
            is_small(c)
        } else {
            lowercase(c)
        },
        lowered: if is_ascii(c) {
            seq![small(c)]
        } else {
            lowered(c)
        },
        raised: if is_ascii(c) {
            seq![capital(c)]
        } else {
            raised(c)
        },
    }
}

/// The characters of a text with the cases Unicode gives them.
pub open spec fn spelling(text: Seq<char>) -> Seq<LetterView> {
    text.map_values(|c: char| spelled(c))
}

/// Looks up the case of a character.
fn letter_of(c: char) -> (letter: Letter)
    ensures
        letter@ == spelled(c),
{
    Letter {
        character: c,
        uppercase: is_uppercase(c),
        lowercase: is_lowercase(c),
        lowered: to_lowercase(c),
        raised: to_uppercase(c),
    }
}

/// Looks up the case of every character.
pub fn letters_of(text: &str) -> (letters: Vec<Letter>)
    ensures
        letter_views(letters@) == spelling(text@),
{
    let chars = chars_of(text);
    let mut letters: Vec<Letter> = Vec::new();
    for i in 0..chars.len()
        invariant
            chars@ == text@,
            letters.len() == i,
            forall|j: int| 0 <= j < i ==> (#[trigger] letters@[j])@ == spelled(text@[j]),
    {
        letters.push(letter_of(chars[i]));
    }
    assert(letter_views(letters@) =~= spelling(text@));
    letters
}

/// Whether a character is one of `0` to `9`.
pub open spec fn is_digit(c: char) -> bool {
    '0' <= c <= '9'
}

/// Whether a word of a camel-case name starts at a position: an uppercase
/// letter behind a lowercase one or a digit, or the last of a run of
/// uppercase letters with a lowercase one behind it.
pub open spec fn starts_word(letters: Seq<LetterView>, i: int) -> bool {
    let after_lower_or_digit = i > 0 && (letters[i - 1].lowercase || is_digit(
        letters[i - 1].character,
    ));
    let ends_acronym_run = i > 0 && letters[i - 1].uppercase && i + 1 < letters.len() && letters[i
        + 1].lowercase;
    letters[i].uppercase && (after_lower_or_digit || ends_acronym_run)
}

/// What one letter of a camel-case name becomes in snake case.
pub open spec fn snake_piece(letters: Seq<LetterView>, i: int) -> Seq<char> {
    let separator = if starts_word(letters, i) {
        seq!['_']
    } else {
        seq![]
    };
    let letter = if letters[i].uppercase {
        letters[i].lowered
    } else {
        seq![letters[i].character]
    };
    separator + letter
}

/// The snake-case form of the first `n` letters of a camel-case name.
pub open spec fn snake_prefix(letters: Seq<LetterView>, n: nat) -> Seq<char>
    decreases n,
{
    if n == 0 {
        seq![]
    } else {
        snake_prefix(letters, (n - 1) as nat) + snake_piece(letters, n - 1)
    }
}

/// The snake-case form of a camel-case name.
pub open spec fn snake_case(letters: Seq<LetterView>) -> Seq<char> {
    snake_prefix(letters, letters.len())
}

/// Converts a camel-case name whose cases are known to snake case.
pub fn snake_case_of(letters: &Vec<Letter>) -> (name: String)
    ensures
        name@ == snake_case(letter_views(letters@)),
{
    let mut name = String::new();
    for i in 0..letters.len()
        invariant
            name@ == snake_prefix(letter_views(letters@), i as nat),
    {
        let letter = &letters[i];
        if letter.uppercase {
            let after_lower_or_digit = i > 0 && (letters[i - 1].lowercase || ('0' <= letters[i
                - 1].character && letters[i - 1].character <= '9'));
            let ends_acronym_run = i > 0 && letters[i - 1].uppercase && letters.len() - i > 1
                && letters[i + 1].lowercase;
            if after_lower_or_digit || ends_acronym_run {
                name.push('_');
            }
            name.append(letter.lowered.as_str());
        } else {
            name.push(letter.character);
        }
        assert(name@ =~= snake_prefix(letter_views(letters@), i as nat) + snake_piece(
            letter_views(letters@),
            i as int,
        ));
    }
    name
}

/// Converts a CamelCase type name to snake_case, keeping acronym runs
/// together: `MessageSent` becomes `message_sent`, `HTTPServer` becomes
/// `http_server`.
pub fn to_snake_case(s: &str) -> (name: String)
    ensures
        name@ == snake_case(spelling(s@)),
{
    snake_case_of(&letters_of(s))
}

/// What one letter of a snake-case name becomes in Pascal case: underscores
/// vanish and the first letter of each word is raised.
pub open spec fn pascal_piece(letters: Seq<LetterView>, i: int) -> Seq<char> {
    if letters[i].character == '_' {
        seq![]
    } else if i == 0 || letters[i - 1].character == '_' {
        letters[i].raised
    } else {
        seq![letters[i].character]
    }
}

/// The Pascal-case form of the first `n` letters of a snake-case name.
pub open spec fn pascal_prefix(letters: Seq<LetterView>, n: nat) -> Seq<char>
    decreases n,
{
    if n == 0 {
        seq![]
    } else {
        pascal_prefix(letters, (n - 1) as nat) + pascal_piece(letters, n - 1)
    }
}

/// The Pascal-case form of a snake-case name.
pub open spec fn pascal_case(letters: Seq<LetterView>) -> Seq<char> {
    pascal_prefix(letters, letters.len())
}

/// Converts a snake-case name whose cases are known to Pascal case.
pub fn pascal_case_of(letters: &Vec<Letter>) -> (name: String)
    ensures
        name@ == pascal_case(letter_views(letters@)),
{
    let mut name = String::new();
    for i in 0..letters.len()
        invariant
            name@ == pascal_prefix(letter_views(letters@), i as nat),
    {
        let letter = &letters[i];
        if letter.character != '_' {
            if i == 0 || letters[i - 1].character == '_' {
                name.append(letter.raised.as_str());
            } else {
                name.push(letter.character);
            }
        }
        assert(name@ =~= pascal_prefix(letter_views(letters@), i as nat) + pascal_piece(
            letter_views(letters@),
            i as int,
        ));
    }
    name
}

/// Converts a snake_case method name to PascalCase: `send_message` becomes
/// `SendMessage`.
pub fn to_pascal_case(s: &str) -> (name: String)
    ensures
        name@ == pascal_case(spelling(s@)),
{
    pascal_case_of(&letters_of(s))
}

/// A name without uppercase letters is its own snake-case form.
pub proof fn snake_case_keeps_names_without_uppercase(letters: Seq<LetterView>)
    requires
        forall|i: int| 0 <= i < letters.len() ==> !(#[trigger] letters[i]).uppercase,
    ensures
        snake_case(letters) == letters.map_values(|letter: LetterView| letter.character),
{
    lemma_snake_prefix_kept(letters, letters.len());
    assert(letters.take(letters.len() as int) =~= letters);
}

proof fn lemma_snake_prefix_kept(letters: Seq<LetterView>, n: nat)
    requires
        n <= letters.len(),
        forall|i: int| 0 <= i < letters.len() ==> !(#[trigger] letters[i]).uppercase,
    ensures
        snake_prefix(letters, n) == letters.take(n as int).map_values(
            |letter: LetterView| letter.character,
        ),
    decreases n,
{
    if n > 0 {
        lemma_snake_prefix_kept(letters, (n - 1) as nat);
        assert(!letters[n - 1].uppercase);
    }
    assert(snake_prefix(letters, n) =~= letters.take(n as int).map_values(
        |letter: LetterView| letter.character,
    ));
}

/// Whether a word of a snake-case name starts at a position.
pub open spec fn opens_word(name: Seq<char>, i: int) -> bool {
    i == 0 || name[i - 1] == '_'
}

/// Whether a name is made of words joined by single underscores, each a small
/// letter with at least one more small letter or digit behind it.
pub open spec fn is_snake_name(name: Seq<char>) -> bool {
    &&& name.len() > 0
    &&& name.last() != '_'
    &&& forall|i: int|
        0 <= i < name.len() ==> is_small(#[trigger] name[i]) || is_digit(name[i]) || name[i] == '_'
    &&& forall|i: int|
        0 <= i < name.len() && #[trigger] opens_word(name, i) ==> is_small(name[i]) && i + 1
            < name.len() && name[i + 1] != '_'
}

/// Snake case undoes Pascal case: the Pascal-case form of a snake-case name
/// has that name as its snake-case form.
pub proof fn snake_case_undoes_pascal_case(name: Seq<char>)
    requires
        is_snake_name(name),
    ensures
        snake_case(spelling(pascal_case(spelling(name)))) == name,
{
    lemma_round_trip(name, name.len());
    assert(name.take(name.len() as int) =~= name);
}

/// How much of a snake-case name its first `n` characters give back.
spec fn returned(name: Seq<char>, n: nat) -> Seq<char> {
    if n > 0 && name[n - 1] == '_' {
        name.take(n - 1)
    } else {
        name.take(n as int)
    }
}

proof fn lemma_pascal_prefix(letters: Seq<LetterView>, n: nat, m: nat)
    requires
        n <= m,
    ensures
        pascal_prefix(letters, n).len() <= pascal_prefix(letters, m).len(),
        pascal_prefix(letters, m).take(pascal_prefix(letters, n).len() as int) == pascal_prefix(
            letters,
            n,
        ),
    decreases m,
{
    let whole = pascal_prefix(letters, m);
    let part = pascal_prefix(letters, n);
    if n < m {
        lemma_pascal_prefix(letters, n, (m - 1) as nat);
        let before = pascal_prefix(letters, (m - 1) as nat);
        assert(whole == before + pascal_piece(letters, m - 1));
        assert(whole.take(part.len() as int) =~= before.take(part.len() as int));
    } else {
        assert(whole.take(part.len() as int) =~= part);
    }
}

/// Where a character of a snake-case name stands in the Pascal-case form.
proof fn lemma_pascal_at(name: Seq<char>, n: nat)
    requires
        is_snake_name(name),
        n < name.len(),
        name[n as int] != '_',
    ensures
        ({
            let letters = spelling(name);
            let at = pascal_prefix(letters, n).len() as int;
            let whole = pascal_case(letters);
            &&& pascal_prefix(letters, n + 1).len() == at + 1
            &&& at < whole.len()
            &&& whole[at] == if opens_word(name, n as int) {
                capital(name[n as int])
            } else {
                name[n as int]
            }
        }),
{
    let letters = spelling(name);
    let before = pascal_prefix(letters, n);
    let after = pascal_prefix(letters, n + 1);
    let whole = pascal_case(letters);
    assert(is_small(name[n as int]) || is_digit(name[n as int]));
    assert(letters[n as int] == spelled(name[n as int]));
    if n > 0 {
        assert(letters[n - 1] == spelled(name[n - 1]));
    }
    assert(after == before + pascal_piece(letters, n as int));
    lemma_pascal_prefix(letters, n + 1, letters.len());
    assert(whole.take(after.len() as int)[before.len() as int] == after[before.len() as int]);
}

proof fn lemma_round_trip(name: Seq<char>, n: nat)
    requires
        is_snake_name(name),
        n <= name.len(),
    ensures
        ({
            let letters = spelling(name);
            snake_prefix(spelling(pascal_case(letters)), pascal_prefix(letters, n).len())
                == returned(name, n)
        }),
    decreases n,
{
    let letters = spelling(name);
    let whole = pascal_case(letters);
    let camel = spelling(whole);
    if n == 0 {
        assert(name.take(0) =~= seq![]);
    } else {
        let m = (n - 1) as nat;
        lemma_round_trip(name, m);
        let c = name[m as int];
        let at = pascal_prefix(letters, m).len();
        assert(is_small(c) || is_digit(c) || c == '_');
        assert(letters[m as int] == spelled(c));
        if c == '_' {
            assert(!opens_word(name, m as int));
            assert(pascal_prefix(letters, n) =~= pascal_prefix(letters, m));
        } else {
            lemma_pascal_at(name, m);
            assert(camel[at as int] == spelled(whole[at as int]));
            let piece = snake_piece(camel, at as int);
            assert(snake_prefix(camel, at + 1) == snake_prefix(camel, at) + piece);
            if opens_word(name, m as int) {
                assert(is_small(c));
                assert(small(capital(c)) == c);
                if m == 0 {
                    assert(piece =~= seq![c]);
                } else {
                    assert(!opens_word(name, m - 1)) by {
                        if opens_word(name, m - 1) {
                            assert(is_small(name[m - 1]));
                        }
                    }
                    let k = (m - 2) as nat;
                    assert(name[k as int] != '_');
                    assert(!opens_word(name, k as int));
                    assert(is_small(name[k as int]) || is_digit(name[k as int]));
                    lemma_pascal_at(name, k);
                    assert(letters[m - 1] == spelled(name[m - 1]));
                    assert(pascal_prefix(letters, m) =~= pascal_prefix(letters, (m - 1) as nat));
                    assert(camel[at - 1] == spelled(whole[at - 1]));
                    assert(piece =~= seq!['_', c]);
                    assert(name.take(m - 1) + piece =~= name.take(n as int));
                }
            } else {
                assert(piece =~= seq![c]);
            }
            assert(snake_prefix(camel, at + 1) =~= name.take(n as int));
        }
    }
}

/// An identifier without the marker of a raw one.
pub open spec fn fragment(ident: Seq<char>) -> Seq<char> {
    if ident.len() >= 2 && ident[0] == 'r' && ident[1] == '#' {
        ident.skip(2)
    } else {
        ident
    }
}

/// Drops the marker of a raw identifier, so that the rest can be part of
/// another.
pub fn fragment_of(ident: &str) -> (part: String)
    ensures
        part@ == fragment(ident@),
{
    let chars = chars_of(ident);
    if chars.len() >= 2 && chars[0] == 'r' && chars[1] == '#' {
        let mut part = String::new();
        for i in 2..chars.len()
            invariant
                2 <= chars.len(),
                part@ == chars@.subrange(2, i as int),
        {
            part.push(chars[i]);
            assert(chars@.subrange(2, i + 1) =~= chars@.subrange(2, i as int).push(
                chars@[i as int],
            ));
        }
        assert(chars@.subrange(2, chars.len() as int) =~= ident@.skip(2));
        part
    } else {
        ident.to_owned()
    }
}

/// The names of raw identifiers are taken without their marker, and all
/// others as they are.
pub proof fn law_fragment(name: Seq<char>)
    ensures
        fragment("r#"@ + name) == name,
        !(name.len() >= 2 && name.take(2) == "r#"@) ==> fragment(name) == name,
{
    reveal_strlit("r#");
    assert(("r#"@ + name).skip(2) =~= name);
    if name.len() >= 2 && name[0] == 'r' && name[1] == '#' {
        assert(name.take(2) =~= "r#"@);
    }
}

proof fn lemma_snake_front(a: Seq<char>, b: Seq<char>, n: nat)
    requires
        n <= a.len(),
        b.len() > 0,
        is_capital(b[0]),
    ensures
        snake_prefix(spelling(a + b), n) == snake_prefix(spelling(a), n),
    decreases n,
{
    if n > 0 {
        lemma_snake_front(a, b, (n - 1) as nat);
        let whole = spelling(a + b);
        let part = spelling(a);
        let i = n - 1;
        assert(whole[i] == part[i]);
        assert(i > 0 ==> whole[i - 1] == part[i - 1]);
        if i + 1 < a.len() {
            assert(whole[i + 1] == part[i + 1]);
        } else {
            assert(whole[i + 1] == spelled(b[0]));
        }
        assert(snake_piece(whole, i) == snake_piece(part, i));
    }
}

proof fn lemma_snake_back(a: Seq<char>, b: Seq<char>, m: nat)
    requires
        1 <= m <= b.len(),
        a.len() > 0,
        is_capital(b[0]),
        starts_word(spelling(a + b), a.len() as int),
    ensures
        snake_prefix(spelling(a + b), a.len() + m) == snake_case(spelling(a)) + seq!['_']
            + snake_prefix(spelling(b), m),
    decreases m,
{
    let whole = spelling(a + b);
    let part = spelling(b);
    let i = a.len() + m - 1;
    assert(whole[i] == part[m - 1]);
    if m + 1 <= b.len() {
        assert(whole.len() > i + 1 ==> m < b.len() ==> whole[i + 1] == part[m as int]);
    }
    let front = snake_case(spelling(a)) + seq!['_'];
    if m == 1 {
        lemma_snake_front(a, b, a.len());
        assert(snake_prefix(part, 1) =~= snake_piece(part, 0));
        assert(snake_piece(whole, i) =~= seq!['_'] + snake_piece(part, 0));
        assert(snake_prefix(whole, a.len() + m) =~= front + snake_prefix(part, m));
    } else {
        lemma_snake_back(a, b, (m - 1) as nat);
        assert(whole[i - 1] == part[m - 2]);
        assert(snake_piece(whole, i) == snake_piece(part, m - 1));
        assert(front + snake_prefix(part, (m - 1) as nat) + snake_piece(part, m - 1) =~= front
            + snake_prefix(part, m));
        assert((a.len() + m - 1) as nat == a.len() + (m - 1) as nat);
    }
}

/// Snake case takes a camel-case name apart where a word starts: in front of
/// a capital behind a small letter or a digit, and in front of the last
/// capital of a run that goes on with a small letter.
pub proof fn law_snake_case_separates_words(a: Seq<char>, b: Seq<char>)
    requires
        a.len() > 0,
        b.len() > 0,
        is_capital(b[0]),
        is_small(a.last()) || is_digit(a.last()) || is_capital(a.last()) && b.len() > 1 && is_small(
            b[1],
        ),
    ensures
        snake_case(spelling(a + b)) == snake_case(spelling(a)) + seq!['_'] + snake_case(
            spelling(b),
        ),
{
    let whole = spelling(a + b);
    let i = a.len() as int;
    assert(whole[i] == spelled(b[0]));
    assert(whole[i - 1] == spelled(a.last()));
    if b.len() > 1 {
        assert(whole[i + 1] == spelled(b[1]));
    }
    assert(starts_word(whole, i));
    lemma_snake_back(a, b, b.len());
}

proof fn lemma_snake_word(name: Seq<char>, n: nat)
    requires
        n <= name.len(),
        forall|i: int| 0 <= i < name.len() ==> is_ascii(#[trigger] name[i]),
        (forall|i: int| 0 <= i < name.len() ==> is_capital(#[trigger] name[i])) || (forall|i: int|
            0 < i < name.len() ==> !is_capital(#[trigger] name[i])),
    ensures
        snake_prefix(spelling(name), n) == name.take(n as int).map_values(|c: char| small(c)),
    decreases n,
{
    if n > 0 {
        lemma_snake_word(name, (n - 1) as nat);
        let letters = spelling(name);
        let i = n - 1;
        assert(letters[i] == spelled(name[i]));
        if i > 0 {
            assert(letters[i - 1] == spelled(name[i - 1]));
        }
        if i + 1 < name.len() {
            assert(letters[i + 1] == spelled(name[i + 1]));
        }
        assert(is_ascii(name[i]));
        assert(snake_piece(letters, i) =~= seq![small(name[i])]);
        assert(name.take(n as int).map_values(|c: char| small(c)) =~= name.take(i).map_values(
            |c: char| small(c),
        ).push(small(name[i])));
        assert(snake_prefix(letters, n) =~= snake_prefix(letters, i as nat).push(small(name[i])));
    } else {
        assert(snake_prefix(spelling(name), 0) =~= name.take(0).map_values(|c: char| small(c)));
    }
}

/// Snake case only lowers a single word: a run of capitals, or a word with no
/// capital behind its first letter.
pub proof fn law_snake_case_lowers_a_word(name: Seq<char>)
    requires
        forall|i: int| 0 <= i < name.len() ==> is_ascii(#[trigger] name[i]),
        (forall|i: int| 0 <= i < name.len() ==> is_capital(#[trigger] name[i])) || (forall|i: int|
            0 < i < name.len() ==> !is_capital(#[trigger] name[i])),
    ensures
        snake_case(spelling(name)) == name.map_values(|c: char| small(c)),
{
    lemma_snake_word(name, name.len());
    assert(name.take(name.len() as int) =~= name);
}

proof fn lemma_pascal_front(a: Seq<char>, b: Seq<char>, n: nat)
    requires
        n <= a.len(),
    ensures
        pascal_prefix(spelling(a + b), n) == pascal_prefix(spelling(a), n),
    decreases n,
{
    if n > 0 {
        lemma_pascal_front(a, b, (n - 1) as nat);
        assert(spelling(a + b)[n - 1] == spelling(a)[n - 1]);
        assert(n > 1 ==> spelling(a + b)[n - 2] == spelling(a)[n - 2]);
    }
}

proof fn lemma_pascal_back(a: Seq<char>, b: Seq<char>, m: nat)
    requires
        m <= b.len(),
        a.len() > 0,
        a.last() == '_',
    ensures
        pascal_prefix(spelling(a + b), a.len() + m) == pascal_case(spelling(a)) + pascal_prefix(
            spelling(b),
            m,
        ),
    decreases m,
{
    let whole = spelling(a + b);
    let part = spelling(b);
    let front = pascal_case(spelling(a));
    if m == 0 {
        lemma_pascal_front(a, b, a.len());
        assert(front + pascal_prefix(part, 0) =~= front);
    } else {
        lemma_pascal_back(a, b, (m - 1) as nat);
        let i = a.len() + m - 1;
        assert(whole[i] == part[m - 1]);
        if m == 1 {
            assert(whole[i - 1] == spelled(a.last()));
        } else {
            assert(whole[i - 1] == part[m - 2]);
        }
        assert(pascal_piece(whole, i) == pascal_piece(part, m - 1));
        assert((a.len() + m - 1) as nat == a.len() + (m - 1) as nat);
        assert(front + pascal_prefix(part, (m - 1) as nat) + pascal_piece(part, m - 1) =~= front
            + pascal_prefix(part, m));
    }
}

/// Pascal case takes a snake-case name word by word: the words on both sides
/// of an underscore are raised each on its own, and the underscore vanishes.
pub proof fn law_pascal_case_joins_words(a: Seq<char>, b: Seq<char>)
    ensures
        pascal_case(spelling(a + seq!['_'] + b)) == pascal_case(spelling(a)) + pascal_case(
            spelling(b),
        ),
{
    let front = a + seq!['_'];
    lemma_pascal_back(front, b, b.len());
    lemma_pascal_front(a, seq!['_'], a.len());
    let letters = spelling(front);
    assert(letters[a.len() as int] == spelled('_'));
    assert(pascal_piece(letters, a.len() as int) == Seq::<char>::empty());
    assert(pascal_case(letters) =~= pascal_case(spelling(a)));
}

/// Pascal case raises the first letter of a word and keeps the others.
pub proof fn law_pascal_case_raises_a_word(first: char, rest: Seq<char>)
    requires
        is_ascii(first),
        first != '_',
        !rest.contains('_'),
    ensures
        pascal_case(spelling(seq![first] + rest)) == seq![capital(first)] + rest,
{
    lemma_pascal_word(first, rest, rest.len());
    assert(rest.take(rest.len() as int) =~= rest);
}

proof fn lemma_pascal_word(first: char, rest: Seq<char>, n: nat)
    requires
        is_ascii(first),
        first != '_',
        !rest.contains('_'),
        n <= rest.len(),
    ensures
        pascal_prefix(spelling(seq![first] + rest), n + 1) == seq![capital(first)] + rest.take(
            n as int,
        ),
    decreases n,
{
    let letters = spelling(seq![first] + rest);
    assert(letters[0] == spelled(first));
    if n == 0 {
        assert(pascal_prefix(letters, 0) =~= seq![]);
        assert(pascal_prefix(letters, 1) =~= seq![capital(first)] + rest.take(0));
    } else {
        lemma_pascal_word(first, rest, (n - 1) as nat);
        assert(letters[n as int] == spelled(rest[n - 1]));
        assert(rest.contains(rest[n - 1]));
        if n > 1 {
            assert(letters[n - 1] == spelled(rest[n - 2]));
            assert(rest.contains(rest[n - 2]));
        }
        assert(pascal_piece(letters, n as int) =~= seq![rest[n - 1]]);
        assert(pascal_prefix(letters, n + 1) =~= pascal_prefix(letters, n) + seq![rest[n - 1]]);
        assert(seq![capital(first)] + rest.take(n - 1) + seq![rest[n - 1]] =~= seq![capital(first)]
            + rest.take(n as int));
    }
}

} // verus!
