//! Building text from parts.

use vstd::prelude::*;

verus! {

/// The parts one after another.
pub open spec fn concat(parts: Seq<Seq<char>>) -> Seq<char>
    decreases parts.len(),
{
    if parts.len() == 0 {
        Seq::empty()
    } else {
        concat(parts.drop_last()) + parts.last()
    }
}

/// The parts one after another, with a separator between any two.
pub open spec fn joined(parts: Seq<Seq<char>>, separator: Seq<char>) -> Seq<char>
    decreases parts.len(),
{
    if parts.len() == 0 {
        Seq::empty()
    } else if parts.len() == 1 {
        parts[0]
    } else {
        joined(parts.drop_last(), separator) + separator + parts.last()
    }
}

/// The number a decimal digit stands for.
pub open spec fn digit_value(c: char) -> int {
    c as int - '0' as int
}

/// Whether a template starts with a hole: a `$` followed by the digit of
/// one of the arguments.
pub open spec fn starts_with_hole(template: Seq<char>, count: nat) -> bool {
    template.len() >= 2 && template[0] == '$' && 0 <= digit_value(template[1]) < 10
        && digit_value(template[1]) < count
}

/// The template with each hole replaced by its argument.
pub open spec fn filled(template: Seq<char>, args: Seq<Seq<char>>) -> Seq<char>
    decreases template.len(),
{
    if template.len() == 0 {
        Seq::empty()
    } else if starts_with_hole(template, args.len()) {
        args[digit_value(template[1])] + filled(template.skip(2), args)
    } else {
        seq![template[0]] + filled(template.skip(1), args)
    }
}

/// The views of items.
pub open spec fn views_of<T: View>(items: Seq<T>) -> Seq<T::V> {
    items.map_values(|item: T| item@)
}

/// The views of lists of texts.
pub open spec fn lists_of(lists: Seq<Vec<String>>) -> Seq<Seq<Seq<char>>> {
    lists.map_values(|list: Vec<String>| views_of(list@))
}

/// The texts of all lists, one list after another.
pub fn flatten(lists: &Vec<Vec<String>>) -> (texts: Vec<String>)
    ensures
        views_of(texts@) == lists_of(lists@).flatten(),
{
    let ghost all = lists_of(lists@);
    let mut texts: Vec<String> = Vec::new();
    assert(views_of(texts@) =~= all.take(0).flatten());
    for i in 0..lists.len()
        invariant
            all == lists_of(lists@),
            views_of(texts@) == all.take(i as int).flatten(),
    {
        let list = &lists[i];
        for j in 0..list.len()
            invariant
                i < lists.len(),
                all == lists_of(lists@),
                *list == lists@[i as int],
                views_of(texts@) == all.take(i as int).flatten() + all[i as int].take(j as int),
        {
            let ghost before = views_of(texts@);
            texts.push(list[j].clone());
            assert(views_of(texts@) =~= before.push(list@[j as int]@));
            assert(all[i as int].take(j + 1) =~= all[i as int].take(j as int).push(
                list@[j as int]@,
            ));
        }
        proof {
            assert(all[i as int].take(list.len() as int) =~= all[i as int]);
            assert(all.take(i + 1).drop_last() =~= all.take(i as int));
            all.take(i + 1).lemma_flatten_and_flatten_alt_are_equivalent();
            all.take(i as int).lemma_flatten_and_flatten_alt_are_equivalent();
        }
    }
    assert(all.take(all.len() as int) =~= all);
    texts
}

/// One more part comes last.
pub proof fn lemma_concat_push(parts: Seq<Seq<char>>, part: Seq<char>)
    ensures
        concat(parts.push(part)) == concat(parts) + part,
{
    assert(parts.push(part).drop_last() =~= parts);
}

/// One more part comes last, behind a separator if it is not the first.
pub proof fn lemma_joined_push(parts: Seq<Seq<char>>, part: Seq<char>, separator: Seq<char>)
    ensures
        joined(parts.push(part), separator) == if parts.len() == 0 {
            part
        } else {
            joined(parts, separator) + separator + part
        },
{
    assert(parts.push(part).drop_last() =~= parts);
}

/// The characters of a text.
pub fn chars_of(text: &str) -> (chars: Vec<char>)
    ensures
        chars@ == text@,
{
    let mut chars: Vec<char> = Vec::new();
    for c in iter: text.chars()
        invariant
            iter.seq() == text@,
            chars@ == text@.take(iter.index()),
    {
        chars.push(c);
        assert(text@.take(iter.index() + 1) =~= text@.take(iter.index()).push(c));
    }
    assert(text@.take(text@.len() as int) =~= text@);
    chars
}

/// Whether a text starts with another.
pub open spec fn has_prefix(text: Seq<char>, prefix: Seq<char>) -> bool {
    prefix.len() <= text.len() && text.take(prefix.len() as int) == prefix
}

/// Whether a text starts with another.
pub fn starts_with(text: &str, prefix: &str) -> (found: bool)
    ensures
        found == has_prefix(text@, prefix@),
{
    let chars = chars_of(text);
    let expected = chars_of(prefix);
    if chars.len() < expected.len() {
        return false;
    }
    for i in 0..expected.len()
        invariant
            chars@ == text@,
            expected@ == prefix@,
            expected.len() <= chars.len(),
            text@.take(i as int) == prefix@.take(i as int),
    {
        if chars[i] != expected[i] {
            assert(text@.take(expected.len() as int)[i as int] != prefix@[i as int]);
            return false;
        }
        assert(text@.take(i + 1) =~= text@.take(i as int).push(text@[i as int]));
        assert(prefix@.take(i + 1) =~= prefix@.take(i as int).push(prefix@[i as int]));
    }
    assert(prefix@.take(prefix@.len() as int) =~= prefix@);
    true
}

/// `String::push`: appends one character.
pub assume_specification[ String::push ](s: &mut String, c: char)
    ensures
        final(s)@ == old(s)@.push(c),
;

/// Replaces each hole of a template by its argument.
pub fn fill(template: &str, args: &Vec<&str>) -> (text: String)
    ensures
        text@ == filled(template@, args@.map_values(|arg: &str| arg@)),
{
    let ghost inserted = args@.map_values(|arg: &str| arg@);
    let chars = chars_of(template);
    let mut text = String::new();
    let mut i: usize = 0;
    assert(template@.skip(0) =~= template@);
    assert(text@ + filled(template@, inserted) =~= filled(template@, inserted));
    while i < chars.len()
        invariant
            i <= chars.len(),
            chars@ == template@,
            inserted == args@.map_values(|arg: &str| arg@),
            text@ + filled(template@.skip(i as int), inserted) == filled(template@, inserted),
        decreases chars.len() - i,
    {
        let ghost rest = template@.skip(i as int);
        let ghost before = text@;
        if chars[i] == '$' && chars.len() - i >= 2 && '0' <= chars[i + 1] && chars[i + 1] <= '9' {
            let index: usize = chars[i + 1] as usize - '0' as usize;
            if index < args.len() {
                assert(starts_with_hole(rest, inserted.len()));
                assert(rest.skip(2) =~= template@.skip(i + 2));
                assert(inserted[index as int] == args@[index as int]@);
                text.append(args[index]);
                i = i + 2;
                assert(text@ + filled(template@.skip(i as int), inserted) =~= before + filled(
                    rest,
                    inserted,
                ));
                continue ;
            }
        }
        assert(!starts_with_hole(rest, inserted.len()));
        assert(rest.skip(1) =~= template@.skip(i + 1));
        text.push(chars[i]);
        i = i + 1;
        assert(text@ + filled(template@.skip(i as int), inserted) =~= before + filled(
            rest,
            inserted,
        ));
    }
    assert(template@.skip(i as int) =~= Seq::empty());
    assert(text@ + Seq::<char>::empty() =~= text@);
    text
}

/// Fills a template with one argument.
pub fn fill1(template: &str, a: &str) -> (text: String)
    ensures
        text@ == filled(template@, seq![a@]),
{
    let args = vec![a];
    assert(args@.map_values(|arg: &str| arg@) =~= seq![a@]);
    fill(template, &args)
}

/// Fills a template with two arguments.
pub fn fill2(template: &str, a: &str, b: &str) -> (text: String)
    ensures
        text@ == filled(template@, seq![a@, b@]),
{
    let args = vec![a, b];
    assert(args@.map_values(|arg: &str| arg@) =~= seq![a@, b@]);
    fill(template, &args)
}

/// Fills a template with three arguments.
pub fn fill3(template: &str, a: &str, b: &str, c: &str) -> (text: String)
    ensures
        text@ == filled(template@, seq![a@, b@, c@]),
{
    let args = vec![a, b, c];
    assert(args@.map_values(|arg: &str| arg@) =~= seq![a@, b@, c@]);
    fill(template, &args)
}

/// Fills a template with four arguments.
pub fn fill4(template: &str, a: &str, b: &str, c: &str, d: &str) -> (text: String)
    ensures
        text@ == filled(template@, seq![a@, b@, c@, d@]),
{
    let args = vec![a, b, c, d];
    assert(args@.map_values(|arg: &str| arg@) =~= seq![a@, b@, c@, d@]);
    fill(template, &args)
}

/// Fills a template with five arguments.
pub fn fill5(template: &str, a: &str, b: &str, c: &str, d: &str, e: &str) -> (text: String)
    ensures
        text@ == filled(template@, seq![a@, b@, c@, d@, e@]),
{
    let args = vec![a, b, c, d, e];
    assert(args@.map_values(|arg: &str| arg@) =~= seq![a@, b@, c@, d@, e@]);
    fill(template, &args)
}

/// Fills a template with six arguments.
pub fn fill6(template: &str, a: &str, b: &str, c: &str, d: &str, e: &str, f: &str) -> (text: String)
    ensures
        text@ == filled(template@, seq![a@, b@, c@, d@, e@, f@]),
{
    let args = vec![a, b, c, d, e, f];
    assert(args@.map_values(|arg: &str| arg@) =~= seq![a@, b@, c@, d@, e@, f@]);
    fill(template, &args)
}

/// Fills a template with seven arguments.
pub fn fill7(
    template: &str,
    a: &str,
    b: &str,
    c: &str,
    d: &str,
    e: &str,
    f: &str,
    g: &str,
) -> (text: String)
    ensures
        text@ == filled(template@, seq![a@, b@, c@, d@, e@, f@, g@]),
{
    let args = vec![a, b, c, d, e, f, g];
    assert(args@.map_values(|arg: &str| arg@) =~= seq![a@, b@, c@, d@, e@, f@, g@]);
    fill(template, &args)
}

/// Fills a template with eight arguments.
pub fn fill8(
    template: &str,
    a: &str,
    b: &str,
    c: &str,
    d: &str,
    e: &str,
    f: &str,
    g: &str,
    h: &str,
) -> (text: String)
    ensures
        text@ == filled(template@, seq![a@, b@, c@, d@, e@, f@, g@, h@]),
{
    let args = vec![a, b, c, d, e, f, g, h];
    assert(args@.map_values(|arg: &str| arg@) =~= seq![a@, b@, c@, d@, e@, f@, g@, h@]);
    fill(template, &args)
}

/// The texts of all items, one after another.
pub(crate) fn each<T: View, F: Fn(&T) -> String>(
    items: &Vec<T>,
    render: F,
    Ghost(rendered): Ghost<spec_fn(T::V) -> Seq<char>>,
) -> (text: String)
    requires
        forall|item: &T| #[trigger] call_requires(render, (item,)),
        forall|item: &T, part: String| #[trigger]
            call_ensures(render, (item,), part) ==> part@ == rendered(item@),
    ensures
        text@ == concat(views_of(items@).map_values(rendered)),
{
    let mut text = String::new();
    for i in 0..items.len()
        invariant
            forall|item: &T| #[trigger] call_requires(render, (item,)),
            forall|item: &T, part: String| #[trigger]
                call_ensures(render, (item,), part) ==> part@ == rendered(item@),
            text@ == concat(views_of(items@).map_values(rendered).take(i as int)),
    {
        let part = render(&items[i]);
        text.append(part.as_str());
        proof {
            let parts = views_of(items@).map_values(rendered);
            lemma_concat_push(parts.take(i as int), parts[i as int]);
            assert(parts.take(i + 1) =~= parts.take(i as int).push(parts[i as int]));
        }
    }
    assert(views_of(items@).map_values(rendered).take(items.len() as int) =~= views_of(items@).map_values(rendered));
    text
}

/// The texts of all items, each rendered with its position, one after
/// another.
pub(crate) fn each_indexed<T: View, F: Fn(usize, &T) -> String>(
    items: &Vec<T>,
    render: F,
    Ghost(rendered): Ghost<spec_fn(int, T::V) -> Seq<char>>,
) -> (text: String)
    requires
        forall|i: usize, item: &T| #[trigger] call_requires(render, (i, item)),
        forall|i: usize, item: &T, part: String| #[trigger]
            call_ensures(render, (i, item), part) ==> part@ == rendered(i as int, item@),
    ensures
        text@ == concat(views_of(items@).map(rendered)),
{
    let mut text = String::new();
    for i in 0..items.len()
        invariant
            forall|i: usize, item: &T| #[trigger] call_requires(render, (i, item)),
            forall|i: usize, item: &T, part: String| #[trigger]
                call_ensures(render, (i, item), part) ==> part@ == rendered(i as int, item@),
            text@ == concat(views_of(items@).map(rendered).take(i as int)),
    {
        let part = render(i, &items[i]);
        text.append(part.as_str());
        proof {
            let parts = views_of(items@).map(rendered);
            lemma_concat_push(parts.take(i as int), parts[i as int]);
            assert(parts.take(i + 1) =~= parts.take(i as int).push(parts[i as int]));
        }
    }
    assert(views_of(items@).map(rendered).take(items.len() as int) =~= views_of(items@).map(rendered));
    text
}

/// The texts of all items, with a separator between any two.
pub(crate) fn each_joined<T: View, F: Fn(&T) -> String>(
    items: &Vec<T>,
    separator: &str,
    render: F,
    Ghost(rendered): Ghost<spec_fn(T::V) -> Seq<char>>,
) -> (text: String)
    requires
        forall|item: &T| #[trigger] call_requires(render, (item,)),
        forall|item: &T, part: String| #[trigger]
            call_ensures(render, (item,), part) ==> part@ == rendered(item@),
    ensures
        text@ == joined(views_of(items@).map_values(rendered), separator@),
{
    let mut text = String::new();
    for i in 0..items.len()
        invariant
            forall|item: &T| #[trigger] call_requires(render, (item,)),
            forall|item: &T, part: String| #[trigger]
                call_ensures(render, (item,), part) ==> part@ == rendered(item@),
            text@ == joined(views_of(items@).map_values(rendered).take(i as int), separator@),
    {
        let part = render(&items[i]);
        if i > 0 {
            text.append(separator);
        }
        text.append(part.as_str());
        proof {
            let parts = views_of(items@).map_values(rendered);
            lemma_joined_push(parts.take(i as int), parts[i as int], separator@);
            assert(parts.take(i + 1) =~= parts.take(i as int).push(parts[i as int]));
            assert(text@ =~= joined(parts.take(i + 1), separator@));
        }
    }
    assert(views_of(items@).map_values(rendered).take(items.len() as int) =~= views_of(items@).map_values(rendered));
    text
}

/// The decimal digits of a number.
pub open spec fn digits(n: nat) -> Seq<char>
    decreases n,
{
    if n < 10 {
        seq![('0' as int + n) as char]
    } else {
        digits(n / 10).push(('0' as int + n % 10) as char)
    }
}

/// Writes a number in decimal.
pub fn decimal(n: u64) -> (text: String)
    ensures
        text@ == digits(n as nat),
    decreases n,
{
    let mut text = if n < 10 {
        String::new()
    } else {
        decimal(n / 10)
    };
    let last: u8 = 48u8 + (n % 10) as u8;
    text.push(last as char);
    assert(n < 10 ==> text@ =~= digits(n as nat));
    text
}

/// A template filled with each number below a bound.
pub open spec fn numbered_parts(template: Seq<char>, n: nat) -> Seq<Seq<char>> {
    Seq::new(n, |i: int| filled(template, seq![digits(i as nat)]))
}

/// Fills a template with each number below a bound, with a separator
/// between any two.
pub fn numbered(template: &str, n: usize, separator: &str) -> (text: String)
    ensures
        text@ == joined(numbered_parts(template@, n as nat), separator@),
{
    let ghost parts = numbered_parts(template@, n as nat);
    let mut text = String::new();
    for i in 0..n
        invariant
            parts == numbered_parts(template@, n as nat),
            text@ == joined(parts.take(i as int), separator@),
    {
        let part = fill1(template, decimal(i as u64).as_str());
        if i > 0 {
            text.append(separator);
        }
        text.append(part.as_str());
        proof {
            lemma_joined_push(parts.take(i as int), parts[i as int], separator@);
            assert(parts.take(i + 1) =~= parts.take(i as int).push(parts[i as int]));
            assert(text@ =~= joined(parts.take(i + 1), separator@));
        }
    }
    assert(parts.take(n as int) =~= parts);
    text
}

/// The decimal digits of a number, behind a minus sign if it is negative.
pub open spec fn signed_digits(n: int) -> Seq<char> {
    if n < 0 {
        seq!['-'] + digits((-n) as nat)
    } else {
        digits(n as nat)
    }
}

/// Writes a signed number in decimal.
pub fn signed_decimal(n: i64) -> (text: String)
    ensures
        text@ == signed_digits(n as int),
{
    if n < 0 {
        let magnitude: u64 = (-(n + 1)) as u64 + 1;
        let mut text = String::new();
        text.push('-');
        text.append(decimal(magnitude).as_str());
        assert(text@ =~= signed_digits(n as int));
        text
    } else {
        decimal(n as u64)
    }
}

/// Whether a part stands at a position of a text.
pub open spec fn stands_at(text: Seq<char>, i: int, part: Seq<char>) -> bool {
    0 <= i && i + part.len() <= text.len() && text.subrange(i, i + part.len()) == part
}

/// Whether a text holds another, in one piece.
pub open spec fn holds(text: Seq<char>, part: Seq<char>) -> bool {
    exists|i: int| #[trigger] stands_at(text, i, part)
}

/// A text holds what stands between its start and its end.
pub proof fn lemma_holds_middle(before: Seq<char>, part: Seq<char>, after: Seq<char>)
    ensures
        holds(before + part + after, part),
{
    let text = before + part + after;
    assert(text.subrange(before.len() as int, (before.len() + part.len()) as int) =~= part);
    assert(stands_at(text, before.len() as int, part));
}

/// A text holds what a part of it holds.
pub proof fn lemma_holds_through(text: Seq<char>, part: Seq<char>, inner: Seq<char>)
    requires
        holds(text, part),
        holds(part, inner),
    ensures
        holds(text, inner),
{
    let i = choose|i: int| #[trigger] stands_at(text, i, part);
    let j = choose|j: int| #[trigger] stands_at(part, j, inner);
    assert(text.subrange(i + j, i + j + inner.len()) =~= part.subrange(j, j + inner.len()));
    assert(stands_at(text, i + j, inner));
}

/// A text holds itself, its start and its end.
pub proof fn lemma_holds_ends(start: Seq<char>, end: Seq<char>)
    ensures
        holds(start, start),
        holds(start + end, start),
        holds(start + end, end),
{
    assert(start.subrange(0, start.len() as int) =~= start);
    assert(stands_at(start, 0, start));
    let text = start + end;
    assert(text.subrange(0, start.len() as int) =~= start);
    assert(stands_at(text, 0, start));
    assert(text.subrange(start.len() as int, (start.len() + end.len()) as int) =~= end);
    assert(stands_at(text, start.len() as int, end));
}

/// Two lists one behind the other are put together one behind the other.
pub proof fn lemma_concat_add(parts: Seq<Seq<char>>, more: Seq<Seq<char>>)
    ensures
        concat(parts + more) == concat(parts) + concat(more),
    decreases more.len(),
{
    if more.len() == 0 {
        assert(parts + more =~= parts);
        assert(concat(parts) + concat(more) =~= concat(parts));
    } else {
        lemma_concat_add(parts, more.drop_last());
        assert((parts + more).drop_last() =~= parts + more.drop_last());
        assert((parts + more).last() == more.last());
        assert(concat(parts) + concat(more.drop_last()) + more.last() =~= concat(parts) + (concat(
            more.drop_last(),
        ) + more.last()));
    }
}

/// Parts one after another hold each of them.
pub proof fn lemma_concat_holds(parts: Seq<Seq<char>>, i: int)
    requires
        0 <= i < parts.len(),
    ensures
        holds(concat(parts), parts[i]),
    decreases parts.len(),
{
    let before = concat(parts.drop_last());
    lemma_holds_ends(before, parts.last());
    if i < parts.len() - 1 {
        lemma_concat_holds(parts.drop_last(), i);
        lemma_holds_through(concat(parts), before, parts[i]);
    }
}

/// Parts with a separator between them hold each of them.
pub proof fn lemma_joined_holds(parts: Seq<Seq<char>>, separator: Seq<char>, i: int)
    requires
        0 <= i < parts.len(),
    ensures
        holds(joined(parts, separator), parts[i]),
    decreases parts.len(),
{
    if parts.len() == 1 {
        lemma_holds_ends(parts[0], seq![]);
    } else {
        let before = joined(parts.drop_last(), separator);
        lemma_holds_ends(before + separator, parts.last());
        if i < parts.len() - 1 {
            lemma_joined_holds(parts.drop_last(), separator, i);
            lemma_holds_middle(seq![], before, separator + parts.last());
            assert(seq![] + before + (separator + parts.last()) =~= joined(parts, separator));
            lemma_holds_through(joined(parts, separator), before, parts[i]);
        }
    }
}

/// Whether a text has no hole.
pub open spec fn is_plain(text: Seq<char>) -> bool {
    forall|i: int| 0 <= i < text.len() ==> text[i] != '$'
}

/// A template is filled piece by piece.
pub proof fn lemma_filled_split(start: Seq<char>, end: Seq<char>, args: Seq<Seq<char>>)
    requires
        start.len() == 0 || start.last() != '$',
    ensures
        filled(start + end, args) == filled(start, args) + filled(end, args),
    decreases start.len(),
{
    let whole = start + end;
    if start.len() == 0 {
        assert(whole =~= end);
        assert(filled(start, args) + filled(end, args) =~= filled(end, args));
    } else if starts_with_hole(start, args.len()) {
        lemma_filled_split(start.skip(2), end, args);
        assert(whole.skip(2) =~= start.skip(2) + end);
        let arg = args[digit_value(start[1])];
        assert(arg + (filled(start.skip(2), args) + filled(end, args)) =~= (arg + filled(
            start.skip(2),
            args,
        )) + filled(end, args));
    } else {
        lemma_filled_split(start.skip(1), end, args);
        assert(whole.skip(1) =~= start.skip(1) + end);
        assert(!starts_with_hole(whole, args.len()));
        let first = seq![start[0]];
        assert(first + (filled(start.skip(1), args) + filled(end, args)) =~= (first + filled(
            start.skip(1),
            args,
        )) + filled(end, args));
    }
}

/// Text without holes stays as it is.
pub proof fn lemma_filled_plain(text: Seq<char>, args: Seq<Seq<char>>)
    requires
        is_plain(text),
    ensures
        filled(text, args) == text,
    decreases text.len(),
{
    if text.len() > 0 {
        lemma_filled_plain(text.skip(1), args);
        assert(seq![text[0]] + text.skip(1) =~= text);
    }
}

/// A hole is its argument.
pub proof fn lemma_filled_hole(hole: Seq<char>, args: Seq<Seq<char>>)
    requires
        hole.len() == 2,
        starts_with_hole(hole, args.len()),
    ensures
        filled(hole, args) == args[digit_value(hole[1])],
{
    assert(hole.skip(2) =~= seq![]);
    assert(args[digit_value(hole[1])] + filled(hole.skip(2), args) =~= args[digit_value(hole[1])]);
}

/// A filled template holds each stretch of it, filled.
pub proof fn lemma_filled_holds(
    template: Seq<char>,
    i: int,
    stretch: Seq<char>,
    args: Seq<Seq<char>>,
)
    requires
        stands_at(template, i, stretch),
        i == 0 || template[i - 1] != '$',
        stretch.len() == 0 || stretch.last() != '$',
    ensures
        holds(filled(template, args), filled(stretch, args)),
{
    let before = template.take(i);
    let after = template.skip(i + stretch.len());
    assert(template =~= before + (stretch + after));
    lemma_filled_split(before, stretch + after, args);
    lemma_filled_split(stretch, after, args);
    let (a, b, c) = (filled(before, args), filled(stretch, args), filled(after, args));
    assert(a + (b + c) =~= a + b + c);
    lemma_holds_middle(a, b, c);
}

/// The hole for an argument.
pub open spec fn hole(k: nat) -> Seq<char> {
    seq!['$', ('0' as int + k) as char]
}

/// A template with one more hole and one more text behind it is filled that
/// way.
proof fn lemma_filled_more(start: Seq<char>, k: nat, plain: Seq<char>, args: Seq<Seq<char>>)
    requires
        start.len() == 0 || start.last() != '$',
        k < 10,
        k < args.len(),
        is_plain(plain),
    ensures
        filled(start + hole(k) + plain, args) == filled(start, args) + args[k as int] + plain,
        (start + hole(k) + plain).last() != '$',
{
    let whole = start + hole(k) + plain;
    assert(whole.last() != '$') by {
        if plain.len() > 0 {
            assert(whole.last() == plain[plain.len() - 1]);
        } else {
            assert(whole.last() == hole(k)[1]);
        }
    }
    assert((start + hole(k)).last() == hole(k)[1]);
    lemma_filled_split(start + hole(k), plain, args);
    lemma_filled_split(start, hole(k), args);
    lemma_filled_hole(hole(k), args);
    lemma_filled_plain(plain, args);
}

/// A filled template holds each text of it without holes.
pub proof fn lemma_reads0(template: Seq<char>, i: int, a: Seq<char>, args: Seq<Seq<char>>)
    requires
        stands_at(template, i, a),
        i == 0 || template[i - 1] != '$',
        is_plain(a),
    ensures
        holds(filled(template, args), a),
{
    lemma_filled_plain(a, args);
    lemma_filled_holds(template, i, a, args);
}

/// A template with one hole is filled in these places.
pub proof fn lemma_fills1(
    a: Seq<char>,
    k: nat,
    b: Seq<char>,
    args: Seq<Seq<char>>,
)
    requires
        is_plain(a),
        is_plain(b),
        k < 10,
        k < args.len(),
    ensures
        filled(a + hole(k) + b, args) == a + args[k as int] + b,
{
    lemma_filled_plain(a, args);
    lemma_filled_more(a, k, b, args);
}

/// A filled template holds each stretch of it with one hole, filled.
pub proof fn lemma_reads1(
    template: Seq<char>,
    i: int,
    a: Seq<char>,
    k: nat,
    b: Seq<char>,
    args: Seq<Seq<char>>,
)
    requires
        stands_at(template, i, a + hole(k) + b),
        i == 0 || template[i - 1] != '$',
        is_plain(a),
        is_plain(b),
        k < 10,
        k < args.len(),
    ensures
        holds(filled(template, args), a + args[k as int] + b),
{
    lemma_fills1(a, k, b, args);
    if b.len() > 0 {
        assert((a + hole(k) + b).last() == b[b.len() - 1]);
    } else {
        assert((a + hole(k) + b).last() == hole(k)[1]);
    }
    lemma_filled_holds(template, i, a + hole(k) + b, args);
}

/// A template with two holes is filled in these places.
pub proof fn lemma_fills2(
    a: Seq<char>,
    k: nat,
    b: Seq<char>,
    l: nat,
    c: Seq<char>,
    args: Seq<Seq<char>>,
)
    requires
        is_plain(a),
        is_plain(b),
        is_plain(c),
        k < 10,
        k < args.len(),
        l < 10,
        l < args.len(),
    ensures
        filled(a + hole(k) + b + hole(l) + c, args) == a + args[k as int] + b + args[l as int] + c,
{
    lemma_filled_plain(a, args);
    lemma_filled_more(a, k, b, args);
    lemma_filled_more(a + hole(k) + b, l, c, args);
}

/// A filled template holds each stretch of it with two holes, filled.
pub proof fn lemma_reads2(
    template: Seq<char>,
    i: int,
    a: Seq<char>,
    k: nat,
    b: Seq<char>,
    l: nat,
    c: Seq<char>,
    args: Seq<Seq<char>>,
)
    requires
        stands_at(template, i, a + hole(k) + b + hole(l) + c),
        i == 0 || template[i - 1] != '$',
        is_plain(a),
        is_plain(b),
        is_plain(c),
        k < 10,
        k < args.len(),
        l < 10,
        l < args.len(),
    ensures
        holds(filled(template, args), a + args[k as int] + b + args[l as int] + c),
{
    lemma_fills2(a, k, b, l, c, args);
    if c.len() > 0 {
        assert((a + hole(k) + b + hole(l) + c).last() == c[c.len() - 1]);
    } else {
        assert((a + hole(k) + b + hole(l) + c).last() == hole(l)[1]);
    }
    lemma_filled_holds(template, i, a + hole(k) + b + hole(l) + c, args);
}

/// A template with three holes is filled in these places.
pub proof fn lemma_fills3(
    a: Seq<char>,
    k: nat,
    b: Seq<char>,
    l: nat,
    c: Seq<char>,
    m: nat,
    d: Seq<char>,
    args: Seq<Seq<char>>,
)
    requires
        is_plain(a),
        is_plain(b),
        is_plain(c),
        is_plain(d),
        k < 10,
        k < args.len(),
        l < 10,
        l < args.len(),
        m < 10,
        m < args.len(),
    ensures
        filled(a + hole(k) + b + hole(l) + c + hole(m) + d, args) == a + args[k as int] + b + args[l as int] + c + args[m as int] + d,
{
    lemma_filled_plain(a, args);
    lemma_filled_more(a, k, b, args);
    lemma_filled_more(a + hole(k) + b, l, c, args);
    lemma_filled_more(a + hole(k) + b + hole(l) + c, m, d, args);
}

/// A filled template holds each stretch of it with three holes, filled.
pub proof fn lemma_reads3(
    template: Seq<char>,
    i: int,
    a: Seq<char>,
    k: nat,
    b: Seq<char>,
    l: nat,
    c: Seq<char>,
    m: nat,
    d: Seq<char>,
    args: Seq<Seq<char>>,
)
    requires
        stands_at(template, i, a + hole(k) + b + hole(l) + c + hole(m) + d),
        i == 0 || template[i - 1] != '$',
        is_plain(a),
        is_plain(b),
        is_plain(c),
        is_plain(d),
        k < 10,
        k < args.len(),
        l < 10,
        l < args.len(),
        m < 10,
        m < args.len(),
    ensures
        holds(filled(template, args), a + args[k as int] + b + args[l as int] + c + args[m as int] + d),
{
    lemma_fills3(a, k, b, l, c, m, d, args);
    if d.len() > 0 {
        assert((a + hole(k) + b + hole(l) + c + hole(m) + d).last() == d[d.len() - 1]);
    } else {
        assert((a + hole(k) + b + hole(l) + c + hole(m) + d).last() == hole(m)[1]);
    }
    lemma_filled_holds(template, i, a + hole(k) + b + hole(l) + c + hole(m) + d, args);
}

/// A template with four holes is filled in these places.
pub proof fn lemma_fills4(
    a: Seq<char>,
    k: nat,
    b: Seq<char>,
    l: nat,
    c: Seq<char>,
    m: nat,
    d: Seq<char>,
    n: nat,
    e: Seq<char>,
    args: Seq<Seq<char>>,
)
    requires
        is_plain(a),
        is_plain(b),
        is_plain(c),
        is_plain(d),
        is_plain(e),
        k < 10,
        k < args.len(),
        l < 10,
        l < args.len(),
        m < 10,
        m < args.len(),
        n < 10,
        n < args.len(),
    ensures
        filled(a + hole(k) + b + hole(l) + c + hole(m) + d + hole(n) + e, args) == a + args[k as int] + b + args[l as int] + c + args[m as int] + d + args[n as int] + e,
{
    lemma_filled_plain(a, args);
    lemma_filled_more(a, k, b, args);
    lemma_filled_more(a + hole(k) + b, l, c, args);
    lemma_filled_more(a + hole(k) + b + hole(l) + c, m, d, args);
    lemma_filled_more(a + hole(k) + b + hole(l) + c + hole(m) + d, n, e, args);
}

/// A filled template holds each stretch of it with four holes, filled.
pub proof fn lemma_reads4(
    template: Seq<char>,
    i: int,
    a: Seq<char>,
    k: nat,
    b: Seq<char>,
    l: nat,
    c: Seq<char>,
    m: nat,
    d: Seq<char>,
    n: nat,
    e: Seq<char>,
    args: Seq<Seq<char>>,
)
    requires
        stands_at(template, i, a + hole(k) + b + hole(l) + c + hole(m) + d + hole(n) + e),
        i == 0 || template[i - 1] != '$',
        is_plain(a),
        is_plain(b),
        is_plain(c),
        is_plain(d),
        is_plain(e),
        k < 10,
        k < args.len(),
        l < 10,
        l < args.len(),
        m < 10,
        m < args.len(),
        n < 10,
        n < args.len(),
    ensures
        holds(filled(template, args), a + args[k as int] + b + args[l as int] + c + args[m as int] + d + args[n as int] + e),
{
    lemma_fills4(a, k, b, l, c, m, d, n, e, args);
    if e.len() > 0 {
        assert((a + hole(k) + b + hole(l) + c + hole(m) + d + hole(n) + e).last() == e[e.len() - 1]);
    } else {
        assert((a + hole(k) + b + hole(l) + c + hole(m) + d + hole(n) + e).last() == hole(n)[1]);
    }
    lemma_filled_holds(template, i, a + hole(k) + b + hole(l) + c + hole(m) + d + hole(n) + e, args);
}

/// A template with five holes is filled in these places.
pub proof fn lemma_fills5(
    a: Seq<char>,
    k: nat,
    b: Seq<char>,
    l: nat,
    c: Seq<char>,
    m: nat,
    d: Seq<char>,
    n: nat,
    e: Seq<char>,
    o: nat,
    f: Seq<char>,
    args: Seq<Seq<char>>,
)
    requires
        is_plain(a),
        is_plain(b),
        is_plain(c),
        is_plain(d),
        is_plain(e),
        is_plain(f),
        k < 10,
        k < args.len(),
        l < 10,
        l < args.len(),
        m < 10,
        m < args.len(),
        n < 10,
        n < args.len(),
        o < 10,
        o < args.len(),
    ensures
        filled(a + hole(k) + b + hole(l) + c + hole(m) + d + hole(n) + e + hole(o) + f, args) == a + args[k as int] + b + args[l as int] + c + args[m as int] + d + args[n as int] + e + args[o as int] + f,
{
    lemma_filled_plain(a, args);
    lemma_filled_more(a, k, b, args);
    lemma_filled_more(a + hole(k) + b, l, c, args);
    lemma_filled_more(a + hole(k) + b + hole(l) + c, m, d, args);
    lemma_filled_more(a + hole(k) + b + hole(l) + c + hole(m) + d, n, e, args);
    lemma_filled_more(a + hole(k) + b + hole(l) + c + hole(m) + d + hole(n) + e, o, f, args);
}

/// A filled template holds each stretch of it with five holes, filled.
pub proof fn lemma_reads5(
    template: Seq<char>,
    i: int,
    a: Seq<char>,
    k: nat,
    b: Seq<char>,
    l: nat,
    c: Seq<char>,
    m: nat,
    d: Seq<char>,
    n: nat,
    e: Seq<char>,
    o: nat,
    f: Seq<char>,
    args: Seq<Seq<char>>,
)
    requires
        stands_at(template, i, a + hole(k) + b + hole(l) + c + hole(m) + d + hole(n) + e + hole(o) + f),
        i == 0 || template[i - 1] != '$',
        is_plain(a),
        is_plain(b),
        is_plain(c),
        is_plain(d),
        is_plain(e),
        is_plain(f),
        k < 10,
        k < args.len(),
        l < 10,
        l < args.len(),
        m < 10,
        m < args.len(),
        n < 10,
        n < args.len(),
        o < 10,
        o < args.len(),
    ensures
        holds(filled(template, args), a + args[k as int] + b + args[l as int] + c + args[m as int] + d + args[n as int] + e + args[o as int] + f),
{
    lemma_fills5(a, k, b, l, c, m, d, n, e, o, f, args);
    if f.len() > 0 {
        assert((a + hole(k) + b + hole(l) + c + hole(m) + d + hole(n) + e + hole(o) + f).last() == f[f.len() - 1]);
    } else {
        assert((a + hole(k) + b + hole(l) + c + hole(m) + d + hole(n) + e + hole(o) + f).last() == hole(o)[1]);
    }
    lemma_filled_holds(template, i, a + hole(k) + b + hole(l) + c + hole(m) + d + hole(n) + e + hole(o) + f, args);
}

/// A template with six holes is filled in these places.
pub proof fn lemma_fills6(
    a: Seq<char>,
    k: nat,
    b: Seq<char>,
    l: nat,
    c: Seq<char>,
    m: nat,
    d: Seq<char>,
    n: nat,
    e: Seq<char>,
    o: nat,
    f: Seq<char>,
    p: nat,
    g: Seq<char>,
    args: Seq<Seq<char>>,
)
    requires
        is_plain(a),
        is_plain(b),
        is_plain(c),
        is_plain(d),
        is_plain(e),
        is_plain(f),
        is_plain(g),
        k < 10,
        k < args.len(),
        l < 10,
        l < args.len(),
        m < 10,
        m < args.len(),
        n < 10,
        n < args.len(),
        o < 10,
        o < args.len(),
        p < 10,
        p < args.len(),
    ensures
        filled(a + hole(k) + b + hole(l) + c + hole(m) + d + hole(n) + e + hole(o) + f + hole(p) + g, args) == a + args[k as int] + b + args[l as int] + c + args[m as int] + d + args[n as int] + e + args[o as int] + f + args[p as int] + g,
{
    lemma_filled_plain(a, args);
    lemma_filled_more(a, k, b, args);
    lemma_filled_more(a + hole(k) + b, l, c, args);
    lemma_filled_more(a + hole(k) + b + hole(l) + c, m, d, args);
    lemma_filled_more(a + hole(k) + b + hole(l) + c + hole(m) + d, n, e, args);
    lemma_filled_more(a + hole(k) + b + hole(l) + c + hole(m) + d + hole(n) + e, o, f, args);
    lemma_filled_more(a + hole(k) + b + hole(l) + c + hole(m) + d + hole(n) + e + hole(o) + f, p, g, args);
}

/// A filled template holds each stretch of it with six holes, filled.
pub proof fn lemma_reads6(
    template: Seq<char>,
    i: int,
    a: Seq<char>,
    k: nat,
    b: Seq<char>,
    l: nat,
    c: Seq<char>,
    m: nat,
    d: Seq<char>,
    n: nat,
    e: Seq<char>,
    o: nat,
    f: Seq<char>,
    p: nat,
    g: Seq<char>,
    args: Seq<Seq<char>>,
)
    requires
        stands_at(template, i, a + hole(k) + b + hole(l) + c + hole(m) + d + hole(n) + e + hole(o) + f + hole(p) + g),
        i == 0 || template[i - 1] != '$',
        is_plain(a),
        is_plain(b),
        is_plain(c),
        is_plain(d),
        is_plain(e),
        is_plain(f),
        is_plain(g),
        k < 10,
        k < args.len(),
        l < 10,
        l < args.len(),
        m < 10,
        m < args.len(),
        n < 10,
        n < args.len(),
        o < 10,
        o < args.len(),
        p < 10,
        p < args.len(),
    ensures
        holds(filled(template, args), a + args[k as int] + b + args[l as int] + c + args[m as int] + d + args[n as int] + e + args[o as int] + f + args[p as int] + g),
{
    lemma_fills6(a, k, b, l, c, m, d, n, e, o, f, p, g, args);
    if g.len() > 0 {
        assert((a + hole(k) + b + hole(l) + c + hole(m) + d + hole(n) + e + hole(o) + f + hole(p) + g).last() == g[g.len() - 1]);
    } else {
        assert((a + hole(k) + b + hole(l) + c + hole(m) + d + hole(n) + e + hole(o) + f + hole(p) + g).last() == hole(p)[1]);
    }
    lemma_filled_holds(template, i, a + hole(k) + b + hole(l) + c + hole(m) + d + hole(n) + e + hole(o) + f + hole(p) + g, args);
}

/// The number that decimal digits spell.
pub open spec fn number(text: Seq<char>) -> int
    decreases text.len(),
{
    if text.len() == 0 {
        0
    } else {
        10 * number(text.drop_last()) + digit_value(text.last())
    }
}

/// The digits of a number spell it, each is one of `0` to `9`, and the first
/// is no zero unless it is the only one.
pub proof fn law_digits_spell_the_number(n: nat)
    ensures
        number(digits(n)) == n,
        digits(n).len() > 0,
        forall|i: int| 0 <= i < digits(n).len() ==> '0' <= #[trigger] digits(n)[i] <= '9',
        n > 0 ==> digits(n)[0] != '0',
    decreases n,
{
    let c = ('0' as int + n % 10) as char;
    if n < 10 {
        assert(digits(n) =~= seq![('0' as int + n) as char]);
        assert(digits(n).drop_last() =~= seq![]);
        assert(number(seq![]) == 0);
    } else {
        law_digits_spell_the_number(n / 10);
        assert(digits(n) =~= digits(n / 10).push(c));
        assert(digits(n).drop_last() =~= digits(n / 10));
        assert(digits(n)[0] == digits(n / 10)[0]);
    }
}

/// A negative number is written as its magnitude behind a minus sign, and no
/// other number has one.
pub proof fn law_signed_digits(n: int)
    ensures
        n >= 0 ==> number(signed_digits(n)) == n && signed_digits(n)[0] != '-',
        n < 0 ==> signed_digits(n)[0] == '-' && number(signed_digits(n).skip(1)) == -n,
{
    if n < 0 {
        law_digits_spell_the_number((-n) as nat);
        assert(signed_digits(n).skip(1) =~= digits((-n) as nat));
    } else {
        law_digits_spell_the_number(n as nat);
    }
}

/// A text starts with another exactly where it is that one with something
/// behind it.
pub proof fn law_prefix(prefix: Seq<char>, rest: Seq<char>, text: Seq<char>)
    ensures
        has_prefix(prefix + rest, prefix),
        has_prefix(text, prefix) ==> text == prefix + text.skip(prefix.len() as int),
{
    assert((prefix + rest).take(prefix.len() as int) =~= prefix);
    if has_prefix(text, prefix) {
        assert(text =~= text.take(prefix.len() as int) + text.skip(prefix.len() as int));
    }
}

} // verus!
