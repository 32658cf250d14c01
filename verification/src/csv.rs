//! Comma-separated values: how fields are written, and how a text is
//! taken apart into records and fields again.

use vstd::prelude::*;

verus! {

/// The characters that a field cannot hold unquoted: the comma, the
/// quotation mark and the two line breaks.
pub open spec fn is_special(c: char) -> bool {
    c == ',' || c == '"' || c == '\n' || c == '\r'
}

/// Whether a field has to be written in quotation marks.
pub open spec fn needs_quotes(field: Seq<char>) -> bool {
    exists|i: int| 0 <= i < field.len() && is_special(#[trigger] field[i])
}

/// The field with every quotation mark written twice.
pub open spec fn doubled(field: Seq<char>) -> Seq<char>
    decreases field.len(),
{
    if field.len() == 0 {
        Seq::empty()
    } else if field[0] == '"' {
        seq!['"', '"'] + doubled(field.skip(1))
    } else {
        seq![field[0]] + doubled(field.skip(1))
    }
}

/// A field as it is written: as it is, or, where it holds a special
/// character, between quotation marks with its own quotation marks
/// doubled.
pub open spec fn csv_field(field: Seq<char>) -> Seq<char> {
    if needs_quotes(field) {
        seq!['"'] + doubled(field) + seq!['"']
    } else {
        field
    }
}

/// A record of four fields as it is written: the fields with commas
/// between them and a line break at the end.
pub open spec fn csv_line(a: Seq<char>, b: Seq<char>, c: Seq<char>, d: Seq<char>) -> Seq<char> {
    csv_field(a) + seq![','] + csv_field(b) + seq![','] + csv_field(c) + seq![','] + csv_field(d)
        + seq!['\n']
}

/// An unquoted field at the start of `s`, and what follows it: the field
/// ends before the first comma or line break, or with the text.
pub open spec fn take_bare(s: Seq<char>) -> (Seq<char>, Seq<char>)
    decreases s.len(),
{
    if s.len() == 0 || s[0] == ',' || s[0] == '\n' {
        (Seq::empty(), s)
    } else {
        let (field, rest) = take_bare(s.skip(1));
        (seq![s[0]] + field, rest)
    }
}

/// A quoted field whose opening quotation mark stood just before `s`,
/// and what follows its closing one. Two quotation marks in a row stand
/// for one in the field. There is no field where the closing quotation
/// mark is missing.
pub open spec fn take_quoted(s: Seq<char>) -> Option<(Seq<char>, Seq<char>)>
    decreases s.len(),
{
    if s.len() == 0 {
        None
    } else if s[0] == '"' {
        if s.len() >= 2 && s[1] == '"' {
            match take_quoted(s.skip(2)) {
                Some((field, rest)) => Some((seq!['"'] + field, rest)),
                None => None,
            }
        } else {
            Some((Seq::empty(), s.skip(1)))
        }
    } else {
        match take_quoted(s.skip(1)) {
            Some((field, rest)) => Some((seq![s[0]] + field, rest)),
            None => None,
        }
    }
}

/// The field at the start of `s`, quoted or not, and what follows it.
pub open spec fn take_field(s: Seq<char>) -> Option<(Seq<char>, Seq<char>)> {
    if s.len() > 0 && s[0] == '"' {
        take_quoted(s.skip(1))
    } else {
        Some(take_bare(s))
    }
}

/// What follows an unquoted field is part of the text it was taken from.
pub proof fn bare_rest_is_shorter(s: Seq<char>)
    ensures
        take_bare(s).1.len() <= s.len(),
    decreases s.len(),
{
    if !(s.len() == 0 || s[0] == ',' || s[0] == '\n') {
        bare_rest_is_shorter(s.skip(1));
    }
}

/// What follows a quoted field is a shorter part of the text it was
/// taken from.
pub proof fn quoted_rest_is_shorter(s: Seq<char>)
    ensures
        take_quoted(s) matches Some((_, rest)) ==> rest.len() < s.len(),
    decreases s.len(),
{
    if s.len() > 0 {
        if s[0] == '"' {
            if s.len() >= 2 && s[1] == '"' {
                quoted_rest_is_shorter(s.skip(2));
            }
        } else {
            quoted_rest_is_shorter(s.skip(1));
        }
    }
}

/// What follows a field is part of the text it was taken from.
pub proof fn field_rest_is_shorter(s: Seq<char>)
    ensures
        take_field(s) matches Some((_, rest)) ==> rest.len() <= s.len(),
{
    if s.len() > 0 && s[0] == '"' {
        quoted_rest_is_shorter(s.skip(1));
    } else {
        bare_rest_is_shorter(s);
    }
}

/// The record at the start of `s` and what follows it: fields with
/// commas between them, up to and including a line break. There is no
/// record where a field is broken, where something other than a comma
/// or a line break follows a field, or where the line break is missing.
pub open spec fn take_record(s: Seq<char>) -> Option<(Seq<Seq<char>>, Seq<char>)>
    decreases s.len(),
    via take_record_ends
{
    match take_field(s) {
        None => None,
        Some((field, rest)) => if rest.len() == 0 {
            None
        } else if rest[0] == '\n' {
            Some((seq![field], rest.skip(1)))
        } else if rest[0] == ',' {
            match take_record(rest.skip(1)) {
                Some((fields, after)) => Some((seq![field] + fields, after)),
                None => None,
            }
        } else {
            None
        },
    }
}

/// The rest of a record is read from a shorter text.
#[via_fn]
proof fn take_record_ends(s: Seq<char>) {
    field_rest_is_shorter(s);
}

/// What follows a record is a shorter part of the text it was taken
/// from.
pub proof fn record_rest_is_shorter(s: Seq<char>)
    ensures
        take_record(s) matches Some((_, rest)) ==> rest.len() < s.len(),
    decreases s.len(),
{
    field_rest_is_shorter(s);
    match take_field(s) {
        None => {},
        Some((field, rest)) => {
            if rest.len() > 0 && rest[0] == ',' {
                record_rest_is_shorter(rest.skip(1));
            }
        },
    }
}

/// The records of a text, if it is made of records and nothing else.
pub open spec fn take_records(s: Seq<char>) -> Option<Seq<Seq<Seq<char>>>>
    decreases s.len(),
    via take_records_ends
{
    if s.len() == 0 {
        Some(Seq::empty())
    } else {
        match take_record(s) {
            None => None,
            Some((record, rest)) => match take_records(rest) {
                Some(records) => Some(seq![record] + records),
                None => None,
            },
        }
    }
}

/// The records after the first are read from a shorter text.
#[via_fn]
proof fn take_records_ends(s: Seq<char>) {
    record_rest_is_shorter(s);
}

/// Doubling the quotation marks of a field does so piece by piece.
pub proof fn doubled_push(field: Seq<char>, c: char)
    ensures
        doubled(field.push(c)) == doubled(field) + (if c == '"' {
            seq!['"', '"']
        } else {
            seq![c]
        }),
    decreases field.len(),
{
    let longer = field.push(c);
    if field.len() == 0 {
        assert(longer.skip(1) =~= Seq::<char>::empty());
        assert(doubled(longer.skip(1)) =~= Seq::<char>::empty());
        assert(doubled(longer) =~= doubled(field) + (if c == '"' {
            seq!['"', '"']
        } else {
            seq![c]
        }));
    } else {
        doubled_push(field.skip(1), c);
        assert(longer.skip(1) =~= field.skip(1).push(c));
        assert(doubled(longer) =~= doubled(field) + (if c == '"' {
            seq!['"', '"']
        } else {
            seq![c]
        }));
    }
}

/// A field without commas and line breaks, written as it is, is read
/// back up to the comma, the line break or the end that follows it.
pub proof fn bare_is_read_back(field: Seq<char>, rest: Seq<char>)
    requires
        forall|i: int| 0 <= i < field.len() ==> field[i] != ',' && field[i] != '\n',
        rest.len() == 0 || rest[0] == ',' || rest[0] == '\n',
    ensures
        take_bare(field + rest) == (field, rest),
    decreases field.len(),
{
    let s = field + rest;
    if field.len() == 0 {
        assert(s =~= rest);
    } else {
        assert(s[0] == field[0]);
        assert(s.skip(1) =~= field.skip(1) + rest);
        bare_is_read_back(field.skip(1), rest);
        assert(seq![field[0]] + field.skip(1) =~= field);
    }
}

/// A field written with its quotation marks doubled and a closing
/// quotation mark after it is read back whole, whatever it holds, as long
/// as no further quotation mark follows.
pub proof fn quoted_is_read_back(field: Seq<char>, rest: Seq<char>)
    requires
        rest.len() == 0 || rest[0] != '"',
    ensures
        take_quoted(doubled(field) + seq!['"'] + rest) == Some((field, rest)),
    decreases field.len(),
{
    let s = doubled(field) + seq!['"'] + rest;
    if field.len() == 0 {
        assert(s =~= seq!['"'] + rest);
        assert(s.skip(1) =~= rest);
    } else {
        let tail = field.skip(1);
        quoted_is_read_back(tail, rest);
        let after = doubled(tail) + seq!['"'] + rest;
        if field[0] == '"' {
            assert(s =~= seq!['"', '"'] + after);
            assert(s.skip(2) =~= after);
            assert(seq!['"'] + tail =~= field);
        } else {
            assert(s =~= seq![field[0]] + after);
            assert(s.skip(1) =~= after);
            assert(seq![field[0]] + tail =~= field);
        }
    }
}

/// A field, written as `csv_field` writes it and followed by a comma or
/// a line break, is read back as it was.
pub proof fn field_is_read_back(field: Seq<char>, rest: Seq<char>)
    requires
        rest.len() > 0,
        rest[0] == ',' || rest[0] == '\n',
    ensures
        take_field(csv_field(field) + rest) == Some((field, rest)),
{
    let s = csv_field(field) + rest;
    if needs_quotes(field) {
        assert(s[0] == '"');
        assert(s.skip(1) =~= doubled(field) + seq!['"'] + rest);
        quoted_is_read_back(field, rest);
    } else {
        assert forall|i: int| 0 <= i < field.len() implies field[i] != ',' && field[i] != '\n'
            && field[i] != '"' by {
            assert(!is_special(field[i]));
        }
        if field.len() > 0 {
            assert(s[0] == field[0]);
        } else {
            assert(s[0] == rest[0]);
        }
        bare_is_read_back(field, rest);
    }
}

/// The last field of a record, written with the line break after it, is
/// read back as a record of that one field.
pub proof fn last_field_is_read_back(field: Seq<char>, rest: Seq<char>)
    ensures
        take_record(csv_field(field) + seq!['\n'] + rest) == Some((seq![field], rest)),
{
    let after = seq!['\n'] + rest;
    field_is_read_back(field, after);
    assert(csv_field(field) + seq!['\n'] + rest =~= csv_field(field) + after);
    assert(after.skip(1) =~= rest);
}

/// A field written with a comma after it, in front of a text that reads
/// as a record, reads as that record with the field in front.
pub proof fn next_field_is_read_back(
    field: Seq<char>,
    line: Seq<char>,
    fields: Seq<Seq<char>>,
    rest: Seq<char>,
)
    requires
        take_record(line) == Some((fields, rest)),
    ensures
        take_record(csv_field(field) + seq![','] + line) == Some((seq![field] + fields, rest)),
{
    let after = seq![','] + line;
    field_is_read_back(field, after);
    assert(csv_field(field) + seq![','] + line =~= csv_field(field) + after);
    assert(after.skip(1) =~= line);
}

/// A record of four fields, written as `csv_line` writes it, is read back
/// as it was, with whatever follows the line left over.
pub proof fn line_is_read_back(
    a: Seq<char>,
    b: Seq<char>,
    c: Seq<char>,
    d: Seq<char>,
    rest: Seq<char>,
)
    ensures
        take_record(csv_line(a, b, c, d) + rest) == Some((seq![a, b, c, d], rest)),
        csv_line(a, b, c, d).len() > 0,
{
    let t4 = csv_field(d) + seq!['\n'] + rest;
    let t3 = csv_field(c) + seq![','] + t4;
    let t2 = csv_field(b) + seq![','] + t3;
    let t1 = csv_field(a) + seq![','] + t2;
    last_field_is_read_back(d, rest);
    next_field_is_read_back(c, t4, seq![d], rest);
    next_field_is_read_back(b, t3, seq![c] + seq![d], rest);
    next_field_is_read_back(a, t2, seq![b] + (seq![c] + seq![d]), rest);
    assert(seq![a] + (seq![b] + (seq![c] + seq![d])) =~= seq![a, b, c, d]);
    assert(t1 =~= csv_line(a, b, c, d) + rest);
}

/// Appends `field` to `out` as `csv_field` writes it.
pub fn push_field(out: &mut Vec<char>, field: &Vec<char>)
    ensures
        final(out)@ == old(out)@ + csv_field(field@),
{
    let n = field.len();
    let mut special = false;
    let mut i: usize = 0;
    while i < n
        invariant
            i <= n == field.len(),
            special == exists|k: int| 0 <= k < i && is_special(#[trigger] field@[k]),
        decreases n - i,
    {
        let c = field[i];
        if c == ',' || c == '"' || c == '\n' || c == '\r' {
            special = true;
        }
        i = i + 1;
    }
    if special {
        out.push('"');
        let mut i: usize = 0;
        proof {
            assert(field@.take(0) =~= Seq::<char>::empty());
            assert(out@ =~= old(out)@ + seq!['"'] + doubled(field@.take(0)));
        }
        while i < n
            invariant
                i <= n == field.len(),
                out@ == old(out)@ + seq!['"'] + doubled(field@.take(i as int)),
            decreases n - i,
        {
            let c = field[i];
            let ghost before = out@;
            proof {
                doubled_push(field@.take(i as int), c);
                assert(field@.take(i + 1) =~= field@.take(i as int).push(c));
            }
            if c == '"' {
                out.push('"');
                out.push('"');
                proof {
                    assert(out@ =~= before + seq!['"', '"']);
                }
            } else {
                out.push(c);
                proof {
                    assert(out@ =~= before + seq![c]);
                }
            }
            proof {
                assert(out@ =~= old(out)@ + seq!['"'] + doubled(field@.take(i + 1)));
            }
            i = i + 1;
        }
        out.push('"');
        proof {
            assert(field@.take(n as int) =~= field@);
            assert(out@ =~= old(out)@ + csv_field(field@));
        }
    } else {
        let mut i: usize = 0;
        proof {
            assert(out@ =~= old(out)@ + field@.take(0));
        }
        while i < n
            invariant
                i <= n == field.len(),
                out@ == old(out)@ + field@.take(i as int),
            decreases n - i,
        {
            out.push(field[i]);
            proof {
                assert(out@ =~= old(out)@ + field@.take(i + 1));
            }
            i = i + 1;
        }
        proof {
            assert(field@.take(n as int) =~= field@);
        }
    }
}

/// Appends a record of four fields to `out` as `csv_line` writes it.
pub fn push_line(
    out: &mut Vec<char>,
    a: &Vec<char>,
    b: &Vec<char>,
    c: &Vec<char>,
    d: &Vec<char>,
)
    ensures
        final(out)@ == old(out)@ + csv_line(a@, b@, c@, d@),
{
    push_field(out, a);
    out.push(',');
    push_field(out, b);
    out.push(',');
    push_field(out, c);
    out.push(',');
    push_field(out, d);
    out.push('\n');
    proof {
        assert(out@ =~= old(out)@ + csv_line(a@, b@, c@, d@));
    }
}

/// The result of reading a field, with `prefix` in front of the field.
pub open spec fn with_prefix(prefix: Seq<char>, r: Option<(Seq<char>, Seq<char>)>) -> Option<
    (Seq<char>, Seq<char>),
> {
    match r {
        Some((field, rest)) => Some((prefix + field, rest)),
        None => None,
    }
}

/// The result of reading a record, with `first` in front of its fields.
pub open spec fn with_fields(
    first: Seq<Seq<char>>,
    r: Option<(Seq<Seq<char>>, Seq<char>)>,
) -> Option<(Seq<Seq<char>>, Seq<char>)> {
    match r {
        Some((fields, rest)) => Some((first + fields, rest)),
        None => None,
    }
}

/// The result of reading records, with `first` in front of them.
pub open spec fn with_records(
    first: Seq<Seq<Seq<char>>>,
    r: Option<Seq<Seq<Seq<char>>>>,
) -> Option<Seq<Seq<Seq<char>>>> {
    match r {
        Some(records) => Some(first + records),
        None => None,
    }
}

/// The fields of a record as sequences of characters.
pub open spec fn field_views(fields: Seq<Vec<char>>) -> Seq<Seq<char>> {
    fields.map_values(|f: Vec<char>| f@)
}

/// The records of a text as sequences of fields.
pub open spec fn record_views(records: Seq<Vec<Vec<char>>>) -> Seq<Seq<Seq<char>>> {
    records.map_values(|r: Vec<Vec<char>>| field_views(r@))
}

/// Reads the unquoted field that starts at `start`, and says where it
/// ends.
pub fn read_bare(s: &Vec<char>, start: usize) -> (r: (Vec<char>, usize))
    requires
        start <= s.len(),
    ensures
        start <= r.1 <= s.len(),
        take_bare(s@.skip(start as int)) == (r.0@, s@.skip(r.1 as int)),
{
    let n = s.len();
    let mut acc: Vec<char> = Vec::new();
    let mut i: usize = start;
    proof {
        assert(acc@ + take_bare(s@.skip(i as int)).0 =~= take_bare(s@.skip(i as int)).0);
    }
    while i < n && s[i] != ',' && s[i] != '\n'
        invariant
            start <= i <= n == s.len(),
            take_bare(s@.skip(start as int)) == (
                acc@ + take_bare(s@.skip(i as int)).0,
                take_bare(s@.skip(i as int)).1,
            ),
        decreases n - i,
    {
        proof {
            let here = s@.skip(i as int);
            assert(here[0] == s@[i as int]);
            assert(here.skip(1) =~= s@.skip(i + 1));
            let t = take_bare(s@.skip(i + 1));
            assert(acc@.push(s@[i as int]) + t.0 =~= acc@ + (seq![s@[i as int]] + t.0));
        }
        acc.push(s[i]);
        i = i + 1;
    }
    proof {
        let here = s@.skip(i as int);
        if i < n {
            assert(here[0] == s@[i as int]);
        }
        assert(take_bare(here) == (Seq::<char>::empty(), here));
        assert(acc@ + Seq::<char>::empty() =~= acc@);
    }
    (acc, i)
}

/// Reads the quoted field whose opening quotation mark stands just
/// before `start`, and says where what follows its closing one begins.
pub fn read_quoted(s: &Vec<char>, start: usize) -> (r: Option<(Vec<char>, usize)>)
    requires
        start <= s.len(),
    ensures
        match r {
            Some((field, next)) => start < next <= s.len() && take_quoted(s@.skip(start as int))
                == Some((field@, s@.skip(next as int))),
            None => take_quoted(s@.skip(start as int)) is None,
        },
{
    let n = s.len();
    let mut acc: Vec<char> = Vec::new();
    let mut i: usize = start;
    proof {
        let r = take_quoted(s@.skip(i as int));
        if r is Some {
            assert(acc@ + r->Some_0.0 =~= r->Some_0.0);
        }
    }
    loop
        invariant
            start <= i <= n == s.len(),
            take_quoted(s@.skip(start as int)) == with_prefix(acc@, take_quoted(s@.skip(i as int))),
        decreases n - i,
    {
        if i >= n {
            return None;
        }
        let c = s[i];
        let ghost here = s@.skip(i as int);
        proof {
            assert(here[0] == c);
        }
        if c == '"' {
            if i + 1 < n && s[i + 1] == '"' {
                proof {
                    assert(here[1] == s@[i + 1]);
                    assert(here.skip(2) =~= s@.skip(i + 2));
                    let r = take_quoted(s@.skip(i + 2));
                    if r is Some {
                        assert(acc@.push('"') + r->Some_0.0 =~= acc@ + (seq!['"'] + r->Some_0.0));
                    }
                }
                acc.push('"');
                i = i + 2;
            } else {
                proof {
                    if i + 1 < n {
                        assert(here[1] == s@[i + 1]);
                    }
                    assert(here.skip(1) =~= s@.skip(i + 1));
                    assert(acc@ + Seq::<char>::empty() =~= acc@);
                }
                return Some((acc, i + 1));
            }
        } else {
            proof {
                assert(here.skip(1) =~= s@.skip(i + 1));
                let r = take_quoted(s@.skip(i + 1));
                if r is Some {
                    assert(acc@.push(c) + r->Some_0.0 =~= acc@ + (seq![c] + r->Some_0.0));
                }
            }
            acc.push(c);
            i = i + 1;
        }
    }
}

/// Reads the field that starts at `start`, quoted or not, and says where
/// what follows it begins.
pub fn read_field(s: &Vec<char>, start: usize) -> (r: Option<(Vec<char>, usize)>)
    requires
        start <= s.len(),
    ensures
        match r {
            Some((field, next)) => start <= next <= s.len() && take_field(s@.skip(start as int))
                == Some((field@, s@.skip(next as int))),
            None => take_field(s@.skip(start as int)) is None,
        },
{
    if start < s.len() && s[start] == '"' {
        proof {
            assert(s@.skip(start as int)[0] == s@[start as int]);
            assert(s@.skip(start as int).skip(1) =~= s@.skip(start + 1));
        }
        read_quoted(s, start + 1)
    } else {
        proof {
            if start < s.len() {
                assert(s@.skip(start as int)[0] == s@[start as int]);
            }
        }
        Some(read_bare(s, start))
    }
}

/// Reads the record that starts at `start`, and says where what follows
/// its line break begins.
pub fn read_record(s: &Vec<char>, start: usize) -> (r: Option<(Vec<Vec<char>>, usize)>)
    requires
        start <= s.len(),
    ensures
        match r {
            Some((fields, next)) => start < next <= s.len() && take_record(s@.skip(start as int))
                == Some((field_views(fields@), s@.skip(next as int))),
            None => take_record(s@.skip(start as int)) is None,
        },
{
    let n = s.len();
    let mut fields: Vec<Vec<char>> = Vec::new();
    let mut i: usize = start;
    proof {
        let r = take_record(s@.skip(i as int));
        if r is Some {
            assert(field_views(fields@) + r->Some_0.0 =~= r->Some_0.0);
        }
    }
    loop
        invariant
            start <= i <= n == s.len(),
            take_record(s@.skip(start as int)) == with_fields(
                field_views(fields@),
                take_record(s@.skip(i as int)),
            ),
        decreases n - i,
    {
        match read_field(s, i) {
            None => {
                return None;
            },
            Some((field, next)) => {
                if next >= n {
                    return None;
                }
                let ghost rest = s@.skip(next as int);
                let ghost before = fields@;
                proof {
                    assert(rest[0] == s@[next as int]);
                    assert(rest.skip(1) =~= s@.skip(next + 1));
                }
                if s[next] == '\n' {
                    fields.push(field);
                    proof {
                        assert(field_views(fields@) =~= field_views(before) + seq![field@]);
                    }
                    return Some((fields, next + 1));
                } else if s[next] == ',' {
                    fields.push(field);
                    proof {
                        let r = take_record(s@.skip(next + 1));
                        if r is Some {
                            assert(field_views(fields@) + r->Some_0.0 =~= field_views(before) + (
                            seq![field@] + r->Some_0.0));
                        }
                    }
                    i = next + 1;
                } else {
                    return None;
                }
            },
        }
    }
}

/// Reads the records that `s` is made of.
pub fn read_records(s: &Vec<char>) -> (r: Option<Vec<Vec<Vec<char>>>>)
    ensures
        match r {
            Some(records) => take_records(s@) == Some(record_views(records@)),
            None => take_records(s@) is None,
        },
{
    let n = s.len();
    let mut records: Vec<Vec<Vec<char>>> = Vec::new();
    let mut i: usize = 0;
    proof {
        assert(s@.skip(0) =~= s@);
        let r = take_records(s@);
        if r is Some {
            assert(record_views(records@) + r->Some_0 =~= r->Some_0);
        }
    }
    while i < n
        invariant
            i <= n == s.len(),
            take_records(s@) == with_records(record_views(records@), take_records(s@.skip(i as int))),
        decreases n - i,
    {
        match read_record(s, i) {
            None => {
                return None;
            },
            Some((record, next)) => {
                let ghost before = records@;
                records.push(record);
                proof {
                    assert(record_views(records@) =~= record_views(before) + seq![
                        field_views(record@),
                    ]);
                    let r = take_records(s@.skip(next as int));
                    if r is Some {
                        assert(record_views(records@) + r->Some_0 =~= record_views(before) + (seq![
                            field_views(record@),
                        ] + r->Some_0));
                    }
                }
                i = next;
            },
        }
    }
    proof {
        assert(record_views(records@) + Seq::<Seq<Seq<char>>>::empty() =~= record_views(records@));
    }
    Some(records)
}

} // verus!
