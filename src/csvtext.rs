use vstd::prelude::*;

verus! {

/// The pieces of `s` between the occurrences of `sep`, in order; there is
/// always one piece more than there are separators.
pub open spec fn split_on(s: Seq<char>, sep: char) -> Seq<Seq<char>>
    decreases s.len(),
{
    if s.len() == 0 {
        seq![Seq::<char>::empty()]
    } else {
        let rest = split_on(s.drop_first(), sep);
        if s[0] == sep {
            seq![Seq::<char>::empty()] + rest
        } else {
            rest.update(0, seq![s[0]] + rest[0])
        }
    }
}

/// The pieces joined, with `sep` between two neighbours.
pub open spec fn join_with(pieces: Seq<Seq<char>>, sep: char) -> Seq<char>
    decreases pieces.len(),
{
    if pieces.len() == 0 {
        Seq::empty()
    } else if pieces.len() == 1 {
        pieces[0]
    } else {
        pieces[0] + seq![sep] + join_with(pieces.drop_first(), sep)
    }
}

/// The lines that hold at least one character.
pub open spec fn nonempty_lines(lines: Seq<Seq<char>>) -> Seq<Seq<char>>
    decreases lines.len(),
{
    if lines.len() == 0 {
        Seq::empty()
    } else if lines[0].len() == 0 {
        nonempty_lines(lines.drop_first())
    } else {
        seq![lines[0]] + nonempty_lines(lines.drop_first())
    }
}

/// Text with no quote, no carriage return and no byte-order mark (which the
/// CSV reader drops at the start of its input): CSV reads it line by line.
pub open spec fn plain_csv_text(text: Seq<char>) -> bool {
    !text.contains('"') && !text.contains('\r') && !text.contains('\u{FEFF}')
}

/// The records of plain CSV text: every non-empty line, cut at each comma.
pub open spec fn plain_records(text: Seq<char>) -> Seq<Seq<Seq<char>>> {
    nonempty_lines(split_on(text, '\n')).map_values(|line: Seq<char>| split_on(line, ','))
}

/// A field that CSV writes as it is and reads back as it was.
pub open spec fn plain_field(f: Seq<char>) -> bool {
    &&& f.len() > 0
    &&& !f.contains(',')
    &&& !f.contains('"')
    &&& !f.contains('\n')
    &&& !f.contains('\r')
    &&& !f.contains('\u{FEFF}')
}

/// Records of plain fields, each with at least one field.
pub open spec fn plain_rows(rows: Seq<Seq<Seq<char>>>) -> bool {
    forall|j: int|
        0 <= j < rows.len() ==> rows[j].len() > 0 && forall|i: int|
            0 <= i < rows[j].len() ==> plain_field(#[trigger] rows[j][i])
}

/// CSV text of plain records: fields joined by commas, each record ended by
/// a newline.
pub open spec fn csv_plain_text(rows: Seq<Seq<Seq<char>>>) -> Seq<char>
    decreases rows.len(),
{
    if rows.len() == 0 {
        Seq::empty()
    } else {
        join_with(rows[0], ',') + seq!['\n'] + csv_plain_text(rows.drop_first())
    }
}

proof fn lemma_concat_lacks(a: Seq<char>, b: Seq<char>, c: char)
    requires
        !a.contains(c),
        !b.contains(c),
    ensures
        !(a + b).contains(c),
{
    assert forall|k: int| 0 <= k < (a + b).len() implies (a + b)[k] != c by {
        if k < a.len() {
            assert(a[k] == (a + b)[k]);
        } else {
            assert(b[k - a.len()] == (a + b)[k]);
        }
    }
}

proof fn lemma_split_prefix(t: Seq<char>, u: Seq<char>, sep: char)
    requires
        !t.contains(sep),
    ensures
        split_on(t + seq![sep] + u, sep) == seq![t] + split_on(u, sep),
    decreases t.len(),
{
    let s = t + seq![sep] + u;
    if t.len() == 0 {
        assert(s.drop_first() =~= u);
        assert(t =~= Seq::<char>::empty());
        assert(s[0] == sep);
    } else {
        assert(s[0] == t[0]);
        assert(t[0] != sep) by {
            assert(t.contains(t[0]) ==> t[0] != sep);
        }
        assert(s.drop_first() =~= t.drop_first() + seq![sep] + u);
        assert(!t.drop_first().contains(sep)) by {
            assert forall|k: int| 0 <= k < t.drop_first().len() implies t.drop_first()[k] != sep by {
                assert(t.drop_first()[k] == t[k + 1]);
            }
        }
        lemma_split_prefix(t.drop_first(), u, sep);
        let rest = split_on(s.drop_first(), sep);
        assert(rest == seq![t.drop_first()] + split_on(u, sep));
        assert(seq![t[0]] + t.drop_first() =~= t);
        assert(rest.update(0, seq![s[0]] + rest[0]) =~= seq![t] + split_on(u, sep));
    }
}

proof fn lemma_split_whole(t: Seq<char>, sep: char)
    requires
        !t.contains(sep),
    ensures
        split_on(t, sep) == seq![t],
    decreases t.len(),
{
    if t.len() == 0 {
        assert(t =~= Seq::<char>::empty());
    } else {
        assert(t[0] != sep) by {
            assert(t.contains(t[0]) ==> t[0] != sep);
        }
        assert(!t.drop_first().contains(sep)) by {
            assert forall|k: int| 0 <= k < t.drop_first().len() implies t.drop_first()[k] != sep by {
                assert(t.drop_first()[k] == t[k + 1]);
            }
        }
        lemma_split_whole(t.drop_first(), sep);
        assert(seq![t[0]] + t.drop_first() =~= t);
        assert(split_on(t.drop_first(), sep).update(0, seq![t[0]] + t.drop_first()) =~= seq![t]);
    }
}

proof fn lemma_join_lacks(pieces: Seq<Seq<char>>, sep: char, c: char)
    requires
        sep != c,
        forall|k: int| 0 <= k < pieces.len() ==> !(#[trigger] pieces[k]).contains(c),
    ensures
        !join_with(pieces, sep).contains(c),
    decreases pieces.len(),
{
    if pieces.len() == 0 {
    } else if pieces.len() == 1 {
        assert(!pieces[0].contains(c));
    } else {
        let rest = pieces.drop_first();
        assert forall|k: int| 0 <= k < rest.len() implies !(#[trigger] rest[k]).contains(c) by {
            assert(rest[k] == pieces[k + 1]);
        }
        lemma_join_lacks(rest, sep, c);
        assert(!seq![sep].contains(c)) by {
            assert(seq![sep][0] == sep);
        }
        assert(!pieces[0].contains(c));
        lemma_concat_lacks(pieces[0], seq![sep], c);
        lemma_concat_lacks(pieces[0] + seq![sep], join_with(rest, sep), c);
    }
}

proof fn lemma_split_join(pieces: Seq<Seq<char>>, sep: char)
    requires
        pieces.len() > 0,
        forall|k: int| 0 <= k < pieces.len() ==> !(#[trigger] pieces[k]).contains(sep),
    ensures
        split_on(join_with(pieces, sep), sep) == pieces,
    decreases pieces.len(),
{
    if pieces.len() == 1 {
        assert(!pieces[0].contains(sep));
        lemma_split_whole(pieces[0], sep);
        assert(seq![pieces[0]] =~= pieces);
    } else {
        let rest = pieces.drop_first();
        assert forall|k: int| 0 <= k < rest.len() implies !(#[trigger] rest[k]).contains(sep) by {
            assert(rest[k] == pieces[k + 1]);
        }
        lemma_split_join(rest, sep);
        assert(!pieces[0].contains(sep));
        lemma_split_prefix(pieces[0], join_with(rest, sep), sep);
        assert(seq![pieces[0]] + rest =~= pieces);
    }
}

proof fn lemma_plain_text_lines(rows: Seq<Seq<Seq<char>>>)
    requires
        plain_rows(rows),
    ensures
        nonempty_lines(split_on(csv_plain_text(rows), '\n')) == rows.map_values(
            |row: Seq<Seq<char>>| join_with(row, ','),
        ),
        !csv_plain_text(rows).contains('"'),
        !csv_plain_text(rows).contains('\r'),
        !csv_plain_text(rows).contains('\u{FEFF}'),
    decreases rows.len(),
{
    if rows.len() == 0 {
        assert(csv_plain_text(rows) =~= Seq::<char>::empty());
        assert(rows.map_values(|row: Seq<Seq<char>>| join_with(row, ',')) =~= Seq::<Seq<char>>::empty());
        let lines = split_on(csv_plain_text(rows), '\n');
        assert(lines =~= seq![Seq::<char>::empty()]);
        assert(lines[0].len() == 0);
        assert(lines.drop_first() =~= Seq::<Seq<char>>::empty());
        assert(nonempty_lines(lines) == nonempty_lines(lines.drop_first()));
    } else {
        let rest = rows.drop_first();
        assert(plain_rows(rest)) by {
            assert forall|j: int| 0 <= j < rest.len() implies rest[j].len() > 0 && forall|i: int|
                0 <= i < rest[j].len() ==> plain_field(#[trigger] rest[j][i]) by {
                assert(rest[j] == rows[j + 1]);
            }
        }
        lemma_plain_text_lines(rest);
        let line = join_with(rows[0], ',');
        assert forall|k: int| 0 <= k < rows[0].len() implies !(#[trigger] rows[0][k]).contains('\n')
            && !rows[0][k].contains('"') && !rows[0][k].contains('\r') && !rows[0][k].contains(
            '\u{FEFF}',
        ) by {
            assert(plain_field(rows[0][k]));
        }
        lemma_join_lacks(rows[0], ',', '\n');
        lemma_join_lacks(rows[0], ',', '"');
        lemma_join_lacks(rows[0], ',', '\r');
        lemma_join_lacks(rows[0], ',', '\u{FEFF}');
        lemma_split_prefix(line, csv_plain_text(rest), '\n');
        let lines = split_on(csv_plain_text(rows), '\n');
        assert(lines == seq![line] + split_on(csv_plain_text(rest), '\n'));
        assert(line.len() > 0) by {
            assert(plain_field(rows[0][0]));
            if rows[0].len() > 1 {
                assert(line.len() >= rows[0][0].len());
            }
        }
        assert(lines.drop_first() =~= split_on(csv_plain_text(rest), '\n'));
        assert(lines[0] == line);
        assert(nonempty_lines(lines) == seq![line] + nonempty_lines(lines.drop_first()));
        assert(rows.map_values(|row: Seq<Seq<char>>| join_with(row, ',')) =~= seq![line]
            + rest.map_values(|row: Seq<Seq<char>>| join_with(row, ',')));
        assert(!seq!['\n'].contains('"')) by {
            assert(seq!['\n'][0] == '\n');
        }
        assert(!seq!['\n'].contains('\r')) by {
            assert(seq!['\n'][0] == '\n');
        }
        lemma_concat_lacks(line, seq!['\n'], '"');
        lemma_concat_lacks(line + seq!['\n'], csv_plain_text(rest), '"');
        lemma_concat_lacks(line, seq!['\n'], '\r');
        lemma_concat_lacks(line + seq!['\n'], csv_plain_text(rest), '\r');
        assert(!seq!['\n'].contains('\u{FEFF}')) by {
            assert(seq!['\n'][0] == '\n');
        }
        lemma_concat_lacks(line, seq!['\n'], '\u{FEFF}');
        lemma_concat_lacks(line + seq!['\n'], csv_plain_text(rest), '\u{FEFF}');
    }
}

/// Plain records written as CSV text read back as the same records: the
/// text is plain, and its records are the ones written.
pub proof fn lemma_csv_round_trip(rows: Seq<Seq<Seq<char>>>)
    requires
        plain_rows(rows),
    ensures
        plain_csv_text(csv_plain_text(rows)),
        plain_records(csv_plain_text(rows)) == rows,
{
    lemma_plain_text_lines(rows);
    let joined = rows.map_values(|row: Seq<Seq<char>>| join_with(row, ','));
    assert forall|j: int| 0 <= j < rows.len() implies split_on(joined[j], ',') == rows[j] by {
        assert forall|k: int| 0 <= k < rows[j].len() implies !(#[trigger] rows[j][k]).contains(',') by {
            assert(plain_field(rows[j][k]));
        }
        lemma_split_join(rows[j], ',');
    }
    assert(joined.map_values(|line: Seq<char>| split_on(line, ',')) =~= rows);
}

} // verus!
