use vstd::prelude::*;
use crate::clock::{get_clock_emoji, icon_of_hour};
use crate::text::{zero_padded, push_zero_padded, lemma_zero_padded_digits};

verus! {

/// The views of a list of strings.
pub open spec fn views(parts: Seq<String>) -> Seq<Seq<char>> {
    parts.map_values(|p: String| p@)
}

/// The parts joined with one space between neighbours.
pub open spec fn joined(parts: Seq<Seq<char>>) -> Seq<char>
    decreases parts.len(),
{
    if parts.len() == 0 {
        Seq::empty()
    } else if parts.len() == 1 {
        parts[0]
    } else {
        joined(parts.drop_last()) + seq![' '] + parts.last()
    }
}

/// The entry text: all arguments in order, joined by single spaces, or `None`
/// when there are none.
pub fn entry_text(args: &Vec<String>) -> (r: Option<String>)
    ensures
        args@.len() == 0 <==> r is None,
        r matches Some(t) ==> t@ == joined(views(args@)),
{
    let n = args.len();
    if n == 0 {
        return None;
    }
    let mut out = args[0].clone();
    proof {
        reveal_strlit(" ");
        assert(views(args@).subrange(0, 1) =~= seq![args@[0]@]);
    }
    let mut i: usize = 1;
    while i < n
        invariant
            n == args@.len(),
            1 <= i <= n,
            out@ == joined(views(args@).subrange(0, i as int)),
        decreases n - i,
    {
        let ghost before = out@;
        proof {
            reveal_strlit(" ");
        }
        out.append(" ");
        out.append(args[i].as_str());
        proof {
            let v = views(args@);
            let w = v.subrange(0, i + 1);
            assert(w.drop_last() =~= v.subrange(0, i as int));
            assert(w.last() == args@[i as int]@);
            assert(joined(w) == joined(w.drop_last()) + seq![' '] + w.last());
            assert(out@ =~= before + seq![' '] + args@[i as int]@);
        }
        i = i + 1;
    }
    assert(views(args@).subrange(0, n as int) =~= views(args@));
    Some(out)
}

/// The line appended for an entry:
/// `JOURNAL CLI HH:MM <icon> -> <text>` and a line feed.
pub open spec fn line_of(hour: nat, minute: nat, text: Seq<char>) -> Seq<char> {
    "JOURNAL CLI "@ + zero_padded(hour, 2) + seq![':'] + zero_padded(minute, 2) + seq![' ']
        + icon_of_hour(hour) + " -> "@ + text + seq!['\n']
}

/// The journal line for an entry made at `hour`:`minute`.
pub fn entry_line(hour: u32, minute: u32, text: &str) -> (r: String)
    ensures
        r@ == line_of(hour as nat, minute as nat, text@),
{
    proof {
        reveal_strlit(":");
        reveal_strlit(" ");
        reveal_strlit("\n");
    }
    let mut out = String::from_str("JOURNAL CLI ");
    push_zero_padded(&mut out, hour, 2);
    out.append(":");
    push_zero_padded(&mut out, minute, 2);
    out.append(" ");
    out.append(get_clock_emoji(hour));
    out.append(" -> ");
    out.append(text);
    out.append("\n");
    out
}

/// The journal file for a stem in a home directory: `<stem>.md` joined to the
/// home path with one separator; a stem that starts at the root stands alone.
pub open spec fn path_of(home: Seq<char>, stem: Seq<char>) -> Seq<char> {
    let name = stem + ".md"@;
    if stem.len() > 0 && stem[0] == '/' {
        name
    } else if home.len() == 0 || home.last() == '/' {
        home + name
    } else {
        home + seq!['/'] + name
    }
}

/// The path of the journal file named by `stem` inside `home`.
pub fn journal_path(home: &str, stem: &str) -> (r: String)
    ensures
        r@ == path_of(home@, stem@),
{
    proof {
        reveal_strlit("/");
    }
    let stem_len = stem.unicode_len();
    let home_len = home.unicode_len();
    let mut out = String::new();
    if stem_len > 0 && stem.get_char(0) == '/' {
    } else if home_len == 0 || home.get_char(home_len - 1) == '/' {
        out.append(home);
    } else {
        out.append(home);
        out.append("/");
    }
    out.append(stem);
    out.append(".md");
    proof {
        assert(out@ =~= path_of(home@, stem@));
    }
    out
}

/// The line reported once an entry has been added to `path`.
pub open spec fn success_text(path: Seq<char>) -> Seq<char> {
    "\u{2713} Entry added to "@ + path
}

/// The report of a successful append to `path`.
pub fn success_message(path: &str) -> (r: String)
    ensures
        r@ == success_text(path@),
{
    let mut out = String::from_str("\u{2713} Entry added to ");
    out.append(path);
    out
}

/// Whether `s` holds no line feed.
pub open spec fn without_line_feed(s: Seq<char>) -> bool {
    forall|i: int| 0 <= i < s.len() ==> s[i] != '\n'
}

proof fn lemma_concat_without_line_feed(a: Seq<char>, b: Seq<char>)
    requires
        without_line_feed(a),
        without_line_feed(b),
    ensures
        without_line_feed(a + b),
{
    assert forall|i: int| 0 <= i < (a + b).len() implies (a + b)[i] != '\n' by {
        if i < a.len() {
            assert((a + b)[i] == a[i]);
        } else {
            assert((a + b)[i] == b[i - a.len()]);
        }
    }
}

proof fn lemma_padded_without_line_feed(n: nat)
    ensures
        without_line_feed(zero_padded(n, 2)),
{
    lemma_zero_padded_digits(n, 2);
}

/// An entry line is one line: it ends with a line feed, and where the text
/// holds no line feed, that is its only one.
pub proof fn lemma_entry_line_is_one_line(hour: nat, minute: nat, text: Seq<char>)
    requires
        without_line_feed(text),
    ensures
        line_of(hour, minute, text).last() == '\n',
        without_line_feed(line_of(hour, minute, text).drop_last()),
{
    reveal_strlit("JOURNAL CLI ");
    reveal_strlit(" -> ");
    let head = "JOURNAL CLI "@;
    let arrow = " -> "@;
    assert(without_line_feed(head));
    assert(without_line_feed(arrow));
    lemma_padded_without_line_feed(hour);
    lemma_padded_without_line_feed(minute);
    let p1 = head + zero_padded(hour, 2);
    lemma_concat_without_line_feed(head, zero_padded(hour, 2));
    let p2 = p1 + seq![':'];
    lemma_concat_without_line_feed(p1, seq![':']);
    let p3 = p2 + zero_padded(minute, 2);
    lemma_concat_without_line_feed(p2, zero_padded(minute, 2));
    let p4 = p3 + seq![' '];
    lemma_concat_without_line_feed(p3, seq![' ']);
    let p5 = p4 + icon_of_hour(hour);
    lemma_concat_without_line_feed(p4, icon_of_hour(hour));
    let p6 = p5 + arrow;
    lemma_concat_without_line_feed(p5, arrow);
    let p7 = p6 + text;
    lemma_concat_without_line_feed(p6, text);
    assert(line_of(hour, minute, text) == p7 + seq!['\n']);
    assert((p7 + seq!['\n']).drop_last() =~= p7);
}

} // verus!
