//! Characters in and out of strings.

use vstd::prelude::*;

verus! {

/// `String::push` appends one character to the end of the string.
pub assume_specification[ String::push ](s: &mut String, c: char)
    ensures
        final(s)@ == old(s)@.push(c),
;

/// The characters of `text`, in order.
pub fn chars_of(text: &str) -> (v: Vec<char>)
    ensures
        v@ == text@,
{
    let mut v: Vec<char> = Vec::new();
    for c in it: text.chars()
        invariant
            it.seq() == text@,
            v@ == it.seq().take(it.index() as int),
    {
        v.push(c);
    }
    v
}

/// The fields of `s` between the separators `sep`, in order: one more field
/// than `s` holds separators, each possibly empty.
pub open spec fn split(s: Seq<char>, sep: char) -> Seq<Seq<char>>
    decreases s.len(),
{
    if s.len() == 0 {
        seq![Seq::empty()]
    } else {
        let front = split(s.drop_last(), sep);
        if s.last() == sep {
            front.push(Seq::empty())
        } else {
            front.update(front.len() - 1, front.last().push(s.last()))
        }
    }
}

/// The fields joined into one text, with `sep` between neighbours.
pub open spec fn join(fields: Seq<Seq<char>>, sep: char) -> Seq<char>
    decreases fields.len(),
{
    if fields.len() == 0 {
        Seq::empty()
    } else if fields.len() == 1 {
        fields[0]
    } else {
        join(fields.drop_last(), sep).push(sep) + fields.last()
    }
}

/// Joining one more field puts the separator and the field behind the rest.
pub proof fn lemma_join_push(fields: Seq<Seq<char>>, last: Seq<char>, sep: char)
    requires
        fields.len() >= 1,
    ensures
        join(fields.push(last), sep) == join(fields, sep).push(sep) + last,
{
    assert(fields.push(last).drop_last() =~= fields);
}

/// What the vectors of `fields` hold, as sequences.
pub open spec fn contents(fields: Seq<Vec<char>>) -> Seq<Seq<char>> {
    Seq::new(fields.len(), |i: int| fields[i]@)
}

/// A text has at least one field.
pub proof fn lemma_split_len(s: Seq<char>, sep: char)
    ensures
        split(s, sep).len() >= 1,
    decreases s.len(),
{
    if s.len() > 0 {
        lemma_split_len(s.drop_last(), sep);
    }
}

/// Joining the fields of a text gives the text back.
pub proof fn lemma_join_split(s: Seq<char>, sep: char)
    ensures
        join(split(s, sep), sep) == s,
    decreases s.len(),
{
    if s.len() == 0 {
        assert(join(split(s, sep), sep) =~= s);
    } else {
        let t = s.drop_last();
        let front = split(t, sep);
        lemma_split_len(t, sep);
        lemma_join_split(t, sep);
        if s.last() == sep {
            let whole = front.push(Seq::empty());
            assert(whole.drop_last() =~= front);
            assert(join(whole, sep) =~= t.push(sep));
        } else {
            let whole = front.update(front.len() - 1, front.last().push(s.last()));
            if front.len() > 1 {
                assert(whole.drop_last() =~= front.drop_last());
                assert(join(whole, sep) =~= join(front, sep).push(s.last()));
            }
        }
        assert(t.push(s.last()) =~= s);
    }
}

/// Text without a separator, put behind a text, lengthens that text's last
/// field and adds none.
pub proof fn lemma_split_append(s: Seq<char>, tail: Seq<char>, sep: char)
    requires
        !tail.contains(sep),
    ensures
        split(s + tail, sep) == split(s, sep).update(
            split(s, sep).len() - 1,
            split(s, sep).last() + tail,
        ),
    decreases tail.len(),
{
    let front = split(s, sep);
    lemma_split_len(s, sep);
    if tail.len() == 0 {
        assert(s + tail =~= s);
        assert(front.last() + tail =~= front.last());
        assert(front.update(front.len() - 1, front.last()) =~= front);
    } else {
        let shorter = tail.drop_last();
        assert(tail.last() == tail[tail.len() - 1]);
        assert forall|i: int| 0 <= i < shorter.len() implies shorter[i] != sep by {
            assert(shorter[i] == tail[i]);
        }
        lemma_split_append(s, shorter, sep);
        assert((s + tail).drop_last() =~= s + shorter);
        assert((front.last() + shorter).push(tail.last()) =~= front.last() + tail);
        let middle = front.update(front.len() - 1, front.last() + shorter);
        assert(middle.update(middle.len() - 1, middle.last().push(tail.last())) =~= front.update(
            front.len() - 1,
            front.last() + tail,
        ));
    }
}

/// Splitting a joined text gives the fields back, where there is at least one
/// field and none holds the separator.
pub proof fn lemma_split_join(fields: Seq<Seq<char>>, sep: char)
    requires
        fields.len() >= 1,
        forall|i: int| 0 <= i < fields.len() ==> !(#[trigger] fields[i]).contains(sep),
    ensures
        split(join(fields, sep), sep) == fields,
    decreases fields.len(),
{
    if fields.len() == 1 {
        lemma_split_append(Seq::empty(), fields[0], sep);
        assert(Seq::<char>::empty() + fields[0] =~= fields[0]);
        assert(split(fields[0], sep) =~= fields);
    } else {
        let front = fields.drop_last();
        lemma_split_join(front, sep);
        let head = join(front, sep).push(sep);
        assert(head.drop_last() =~= join(front, sep));
        lemma_split_append(head, fields.last(), sep);
        assert(Seq::<char>::empty() + fields.last() =~= fields.last());
        assert(split(head + fields.last(), sep) =~= fields);
    }
}

/// Splits `s` at each `sep`.
pub fn split_fields(s: &[char], sep: char) -> (fields: Vec<Vec<char>>)
    ensures
        contents(fields@) == split(s@, sep),
{
    let mut fields: Vec<Vec<char>> = Vec::new();
    let mut current: Vec<char> = Vec::new();
    let mut i: usize = 0;
    while i < s.len()
        invariant
            i <= s.len(),
            contents(fields@).push(current@) == split(s@.take(i as int), sep),
        decreases s.len() - i,
    {
        let ghost before = contents(fields@);
        let ghost field = current@;
        proof {
            assert(s@.take(i + 1).drop_last() =~= s@.take(i as int));
        }
        if s[i] == sep {
            fields.push(current);
            current = Vec::new();
            proof {
                assert(contents(fields@) =~= before.push(field));
            }
        } else {
            current.push(s[i]);
            proof {
                assert(before.push(current@) =~= before.push(field).update(
                    before.len() as int,
                    field.push(s@[i as int]),
                ));
            }
        }
        i += 1;
    }
    let ghost before = contents(fields@);
    let ghost field = current@;
    fields.push(current);
    proof {
        assert(s@.take(i as int) =~= s@);
        assert(contents(fields@) =~= before.push(field));
    }
    fields
}

} // verus!
