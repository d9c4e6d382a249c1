//! Collecting PEM certificate blocks from the bundled certificate text, line
//! by line as std's `str::lines` gives them.
use vstd::prelude::*;
use crate::text::{concat, split_on_exec, str_eq};

verus! {

/// A line with one trailing `\r` removed.
pub open spec fn strip_cr(line: Seq<char>) -> Seq<char> {
    if line.len() > 0 && line.last() == '\r' {
        line.drop_last()
    } else {
        line
    }
}

/// The lines std's `str::lines` gives: the pieces between `\n`, without a
/// trailing `\r`, and without the empty piece after a final `\n`.
pub open spec fn text_lines(text: Seq<char>) -> Seq<Seq<char>> {
    let pieces = crate::text::split_on(text, '\n');
    let kept = if pieces.last().len() == 0 { pieces.drop_last() } else { pieces };
    kept.map_values(|p: Seq<char>| strip_cr(p))
}

pub open spec fn begin_line() -> Seq<char> {
    "-----BEGIN CERTIFICATE-----\n"@
}

pub open spec fn end_line() -> Seq<char> {
    "-----END CERTIFICATE-----\n"@
}

/// Where the collection stands: looking for a block, or inside one with
/// the text gathered so far.
pub enum CollectState {
    Searching,
    Building(Seq<char>),
}

/// One line: a begin line starts a block (when not inside one), an end line
/// closes the block being built, any other line is added to it.
pub open spec fn collect_step(state: (CollectState, Seq<Seq<char>>), line: Seq<char>) -> (CollectState, Seq<Seq<char>>) {
    let (mode, certs) = state;
    if line == begin_line() {
        match mode {
            CollectState::Searching => (CollectState::Building(line), certs),
            CollectState::Building(c) => (CollectState::Building(c), certs),
        }
    } else if line == end_line() {
        match mode {
            CollectState::Building(c) => (CollectState::Searching, certs.push(c + line)),
            CollectState::Searching => (CollectState::Searching, certs),
        }
    } else {
        match mode {
            CollectState::Building(c) => (CollectState::Building(c + line), certs),
            CollectState::Searching => (CollectState::Searching, certs),
        }
    }
}

pub open spec fn collect_lines(lines: Seq<Seq<char>>) -> (CollectState, Seq<Seq<char>>)
    decreases lines.len(),
{
    if lines.len() == 0 {
        (CollectState::Searching, seq![])
    } else {
        collect_step(collect_lines(lines.drop_last()), lines.last())
    }
}

/// The certificate blocks collected from the text.
pub open spec fn spec_certificate_blocks(text: Seq<char>) -> Seq<Seq<char>> {
    collect_lines(text_lines(text)).1
}

/// The certificate blocks of `text` (`spec_certificate_blocks`).
pub fn certificate_blocks(text: &str) -> (r: Vec<String>)
    ensures
        crate::text::texts_view(r@) == spec_certificate_blocks(text@),
{
    let pieces = split_on_exec(text, '\n');
    let ghost pv = crate::text::texts_view(pieces@);
    proof {
        crate::text::lemma_split_on_nonempty(text@, '\n');
    }
    proof {
        reveal_strlit("");
    }
    let last_empty = str_eq(pieces[pieces.len() - 1].as_str(), "");
    assert(last_empty == (pv.last().len() == 0)) by {
        assert(pv.last() == pieces@[pieces@.len() - 1]@);
        if pv.last().len() == 0 {
            assert(pv.last() =~= ""@);
        }
    }
    let n = if last_empty { pieces.len() - 1 } else { pieces.len() };
    let ghost kept = if pv.last().len() == 0 { pv.drop_last() } else { pv };
    let ghost lines = kept.map_values(|p: Seq<char>| strip_cr(p));
    assert(kept.len() == n);
    let begin = "-----BEGIN CERTIFICATE-----\n";
    let end = "-----END CERTIFICATE-----\n";
    let mut building: Option<String> = None;
    let mut certs: Vec<String> = Vec::new();
    let mut i: usize = 0;
    while i < n
        invariant
            i <= n,
            n <= pieces@.len(),
            pv == crate::text::texts_view(pieces@),
            kept.len() == n,
            forall|j: int| 0 <= j < n ==> #[trigger] kept[j] == pv[j],
            lines == kept.map_values(|p: Seq<char>| strip_cr(p)),
            begin@ == begin_line(),
            end@ == end_line(),
            ({
                let st = collect_lines(lines.take(i as int));
                &&& crate::text::texts_view(certs@) == st.1
                &&& match building {
                    None => st.0 is Searching,
                    Some(c) => st.0 == CollectState::Building(c@),
                }
            }),
        decreases n - i,
    {
        let line = strip_line(pieces[i].as_str());
        assert(lines.take(i + 1).drop_last() =~= lines.take(i as int));
        assert(lines.take(i + 1).last() == line@);
        let ghost before = certs@;
        if str_eq(line.as_str(), begin) {
            if building.is_none() {
                building = Some(line);
            }
        } else if str_eq(line.as_str(), end) {
            match building {
                Some(c) => {
                    let block = concat(c.as_str(), line.as_str());
                    certs.push(block);
                    assert(crate::text::texts_view(certs@) =~= crate::text::texts_view(before).push(block@));
                    building = None;
                },
                None => {},
            }
        } else {
            match building {
                Some(c) => {
                    building = Some(concat(c.as_str(), line.as_str()));
                },
                None => {},
            }
        }
        i = i + 1;
    }
    assert(lines.take(n as int) =~= lines);
    certs
}

/// A line with one trailing `\r` removed.
fn strip_line(piece: &str) -> (r: String)
    ensures
        r@ == strip_cr(piece@),
{
    let cs = crate::text::chars_of(piece);
    let n = cs.len();
    let keep = if n > 0 && cs[n - 1] == '\r' { n - 1 } else { n };
    let mut r = String::new();
    let mut i: usize = 0;
    while i < keep
        invariant
            i <= keep <= cs@.len(),
            cs@ == piece@,
            r@ == cs@.take(i as int),
        decreases keep - i,
    {
        crate::text::push_char(&mut r, cs[i]);
        i = i + 1;
        assert(r@ =~= cs@.take(i as int));
    }
    assert(strip_cr(piece@) =~= cs@.take(keep as int));
    r
}

proof fn lemma_split_pieces_have_no_sep(s: Seq<char>, sep: char)
    ensures
        forall|i: int, k: int|
            0 <= i < crate::text::split_on(s, sep).len() && 0 <= k < crate::text::split_on(s, sep)[i].len()
                ==> #[trigger] crate::text::split_on(s, sep)[i][k] != sep,
    decreases s.len(),
{
    if s.len() > 0 {
        lemma_split_pieces_have_no_sep(s.drop_last(), sep);
        crate::text::lemma_split_on_nonempty(s.drop_last(), sep);
        let p = crate::text::split_on(s.drop_last(), sep);
        if s.last() != sep {
            let q = p.update(p.len() - 1, p.last().push(s.last()));
            assert forall|i: int, k: int| 0 <= i < q.len() && 0 <= k < q[i].len() implies #[trigger] q[i][k] != sep by {
                if i == p.len() - 1 && k == p.last().len() {
                } else if i == p.len() - 1 {
                    assert(q[i][k] == p[i][k]);
                }
            }
        } else {
            let q = p.push(seq![]);
            assert forall|i: int, k: int| 0 <= i < q.len() && 0 <= k < q[i].len() implies #[trigger] q[i][k] != sep by {
                assert(q[i] == p[i]);
            }
        }
    }
}

/// Lines never hold a `\n`, so a line can never equal the begin and end
/// lines, which end in `\n`: no certificate block is ever collected, whatever
/// the text.
pub proof fn lemma_no_certificate_is_collected(text: Seq<char>)
    ensures
        spec_certificate_blocks(text) == Seq::<Seq<char>>::empty(),
{
    let lines = text_lines(text);
    let pieces = crate::text::split_on(text, '\n');
    lemma_split_pieces_have_no_sep(text, '\n');
    crate::text::lemma_split_on_nonempty(text, '\n');
    reveal_strlit("-----BEGIN CERTIFICATE-----\n");
    reveal_strlit("-----END CERTIFICATE-----\n");
    assert forall|j: int| 0 <= j < lines.len() implies #[trigger] lines[j] != begin_line() && lines[j] != end_line() by {
        let piece = pieces[j];
        let l = lines[j];
        assert(l == strip_cr(piece));
        assert(begin_line()[begin_line().len() - 1] == '\n');
        assert(end_line()[end_line().len() - 1] == '\n');
        if l == begin_line() {
            assert(l[l.len() - 1] == piece[l.len() - 1]);
        }
        if l == end_line() {
            assert(l[l.len() - 1] == piece[l.len() - 1]);
        }
    }
    lemma_collect_stays_searching(lines);
}

proof fn lemma_collect_stays_searching(lines: Seq<Seq<char>>)
    requires
        forall|j: int| 0 <= j < lines.len() ==> #[trigger] lines[j] != begin_line() && lines[j] != end_line(),
    ensures
        collect_lines(lines) == (CollectState::Searching, Seq::<Seq<char>>::empty()),
    decreases lines.len(),
{
    if lines.len() > 0 {
        assert forall|j: int| 0 <= j < lines.drop_last().len() implies #[trigger] lines.drop_last()[j] != begin_line()
            && lines.drop_last()[j] != end_line() by {
            assert(lines.drop_last()[j] == lines[j]);
        }
        lemma_collect_stays_searching(lines.drop_last());
        assert(lines.last() == lines[lines.len() - 1]);
    }
}

} // verus!
