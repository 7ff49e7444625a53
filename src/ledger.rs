//! The ledger: the agent's identity and its two lists of items to verify,
//! persisted as one text record with four marked sections.
use vstd::prelude::*;
use crate::lines::{
    has_no_newline, join_lines, join_spec, lemma_split_join, lemma_split_no_newline, lemma_view_push, lemma_view_take,
    split_lines, split_spec, strings_view,
};

verus! {

pub open spec fn begin_uuid() -> Seq<char> {
    "-----BEGIN UUID-----"@
}

pub open spec fn end_uuid() -> Seq<char> {
    "-----END UUID-----"@
}

pub open spec fn begin_services() -> Seq<char> {
    "-----BEGIN SERVICES TO VERIFY-----"@
}

pub open spec fn end_services() -> Seq<char> {
    "-----END SERVICES TO VERIFY-----"@
}

pub open spec fn begin_tasks() -> Seq<char> {
    "-----BEGIN TASKS TO VERIFY-----"@
}

pub open spec fn end_tasks() -> Seq<char> {
    "-----END TASKS TO VERIFY-----"@
}

pub open spec fn is_marker(s: Seq<char>) -> bool {
    s == begin_uuid() || s == end_uuid() || s == begin_services() || s == end_services()
        || s == begin_tasks() || s == end_tasks()
}

/// What the ledger holds, as mathematical values.
pub struct LedgerModel {
    pub id: Seq<char>,
    pub services: Seq<Seq<char>>,
    pub tasks: Seq<Seq<char>>,
}

/// An entry that can be stored: one non-empty line that is not a section marker.
pub open spec fn valid_entry(e: Seq<char>) -> bool {
    e.len() > 0 && has_no_newline(e) && !is_marker(e)
}

/// A line that reads back as an entry: non-empty, without a newline.
pub open spec fn entry_line(e: Seq<char>) -> bool {
    e.len() > 0 && has_no_newline(e)
}

/// Entries that a section reads back: lines, and in the services no line that
/// closes the services.
pub open spec fn section_ok(sec: Section, es: Seq<Seq<char>>) -> bool {
    forall|i: int|
        0 <= i < es.len() ==> entry_line(#[trigger] es[i]) && (sec == Section::Services ==> es[i]
            != end_services())
}

/// A ledger whose record text reads back as the same ledger.
pub open spec fn readable(m: LedgerModel) -> bool {
    has_no_newline(m.id) && section_ok(Section::Services, m.services) && section_ok(
        Section::Tasks,
        m.tasks,
    )
}

/// The lines of a section: its entries, or one blank line when it has none.
pub open spec fn section_body(es: Seq<Seq<char>>) -> Seq<Seq<char>> {
    if es.len() == 0 {
        seq![Seq::<char>::empty()]
    } else {
        es
    }
}

pub open spec fn ledger_lines(m: LedgerModel) -> Seq<Seq<char>> {
    seq![begin_uuid(), m.id, end_uuid(), begin_services()] + section_body(m.services) + seq![
        end_services(),
        begin_tasks(),
    ] + section_body(m.tasks) + seq![end_tasks()]
}

/// The record text of a ledger.
pub open spec fn render_spec(m: LedgerModel) -> Seq<char> {
    join_spec(ledger_lines(m))
}

/// The first index at or after `from` whose line is `target`, or the number of lines.
pub open spec fn first_index(ls: Seq<Seq<char>>, from: int, target: Seq<char>) -> int
    decreases ls.len() - from,
{
    if from >= ls.len() {
        ls.len() as int
    } else if ls[from] == target {
        from
    } else {
        first_index(ls, from + 1, target)
    }
}

/// The lines of `ls` that are not blank, in order.
pub open spec fn non_blank(ls: Seq<Seq<char>>) -> Seq<Seq<char>>
    decreases ls.len(),
{
    if ls.len() == 0 {
        ls
    } else {
        let r = non_blank(ls.drop_last());
        if ls.last().len() == 0 {
            r
        } else {
            r.push(ls.last())
        }
    }
}

pub open spec fn parse_lines(ls: Seq<Seq<char>>) -> Option<LedgerModel> {
    let j = first_index(ls, 4, end_services());
    let k = ls.len() - 1;
    if ls.len() >= 7 && ls[0] == begin_uuid() && ls[2] == end_uuid() && ls[3] == begin_services()
        && j + 2 <= k && ls[j + 1] == begin_tasks() && ls[k] == end_tasks() {
        Some(
            LedgerModel {
                id: ls[1],
                services: non_blank(ls.subrange(4, j)),
                tasks: non_blank(ls.subrange(j + 2, k)),
            },
        )
    } else {
        None
    }
}

/// The ledger that a record text holds, if it is well formed. Blank entries
/// are not items: they are dropped.
pub open spec fn parse_spec(t: Seq<char>) -> Option<LedgerModel> {
    parse_lines(split_spec(t))
}

proof fn lemma_markers()
    ensures
        !is_marker(Seq::<char>::empty()),
        has_no_newline(begin_uuid()),
        has_no_newline(end_uuid()),
        has_no_newline(begin_services()),
        has_no_newline(end_services()),
        has_no_newline(begin_tasks()),
        has_no_newline(end_tasks()),
        begin_tasks() != end_services(),
{
    reveal_strlit("-----BEGIN UUID-----");
    reveal_strlit("-----END UUID-----");
    reveal_strlit("-----BEGIN SERVICES TO VERIFY-----");
    reveal_strlit("-----END SERVICES TO VERIFY-----");
    reveal_strlit("-----BEGIN TASKS TO VERIFY-----");
    reveal_strlit("-----END TASKS TO VERIFY-----");
    assert(begin_tasks()[7] != end_services()[7]);
    assert(begin_uuid().len() > 0 && end_uuid().len() > 0 && begin_services().len() > 0);
    assert(end_services().len() > 0 && begin_tasks().len() > 0 && end_tasks().len() > 0);
}

proof fn lemma_first_index(ls: Seq<Seq<char>>, from: int, j: int, t: Seq<char>)
    requires
        0 <= from <= j < ls.len(),
        ls[j] == t,
        forall|i: int| from <= i < j ==> ls[i] != t,
    ensures
        first_index(ls, from, t) == j,
    decreases j - from,
{
    if from < j {
        lemma_first_index(ls, from + 1, j, t);
    }
}

proof fn lemma_non_blank_keeps(es: Seq<Seq<char>>)
    requires
        forall|i: int| 0 <= i < es.len() ==> (#[trigger] es[i]).len() > 0,
    ensures
        non_blank(es) == es,
    decreases es.len(),
{
    if es.len() > 0 {
        lemma_non_blank_keeps(es.drop_last());
        assert(es.drop_last().push(es.last()) =~= es);
    }
}

proof fn lemma_section_reads_back(sec: Section, es: Seq<Seq<char>>)
    requires
        section_ok(sec, es),
    ensures
        non_blank(section_body(es)) == es,
        forall|i: int| 0 <= i < section_body(es).len() ==> has_no_newline(#[trigger] section_body(es)[i]),
        sec == Section::Services ==> forall|i: int|
            0 <= i < section_body(es).len() ==> #[trigger] section_body(es)[i] != end_services(),
{
    lemma_markers();
    if es.len() == 0 {
        let b = section_body(es);
        assert(non_blank(b.drop_last()) == b.drop_last());
        assert(non_blank(b) =~= es);
        assert forall|i: int| 0 <= i < b.len() implies has_no_newline(#[trigger] b[i]) by {
            assert(b[i].len() == 0);
        }
    } else {
        assert forall|i: int| 0 <= i < es.len() implies (#[trigger] es[i]).len() > 0 by {
            assert(entry_line(es[i]));
        }
        lemma_non_blank_keeps(es);
    }
}

/// Rendering a readable ledger and parsing the text gives the ledger back.
proof fn lemma_render_parse(m: LedgerModel)
    requires
        readable(m),
    ensures
        parse_spec(render_spec(m)) == Some(m),
{
    lemma_markers();
    lemma_section_reads_back(Section::Services, m.services);
    lemma_section_reads_back(Section::Tasks, m.tasks);
    let ls = ledger_lines(m);
    let b1 = section_body(m.services);
    let b2 = section_body(m.tasks);
    let j: int = 4 + b1.len() as int;
    let k: int = ls.len() as int - 1;
    assert forall|i: int| 0 <= i < ls.len() implies has_no_newline(#[trigger] ls[i]) by {
        if 4 <= i < j {
            assert(ls[i] == b1[i - 4]);
        } else if j + 2 <= i < k {
            assert(ls[i] == b2[i - j - 2]);
        }
    }
    lemma_split_join(ls);
    assert forall|i: int| 4 <= i < j implies ls[i] != end_services() by {
        assert(ls[i] == b1[i - 4]);
    }
    lemma_first_index(ls, 4, j, end_services());
    assert(ls.subrange(4, j) =~= b1);
    assert(ls.subrange(j + 2, k) =~= b2);
}

proof fn lemma_first_index_skips(ls: Seq<Seq<char>>, from: int, t: Seq<char>)
    requires
        0 <= from <= ls.len(),
    ensures
        from <= first_index(ls, from, t) <= ls.len(),
        forall|i: int| from <= i < first_index(ls, from, t) ==> ls[i] != t,
    decreases ls.len() - from,
{
    if from < ls.len() && ls[from] != t {
        lemma_first_index_skips(ls, from + 1, t);
    }
}

proof fn lemma_non_blank_all(ls: Seq<Seq<char>>, p: spec_fn(Seq<char>) -> bool)
    requires
        forall|i: int| 0 <= i < ls.len() ==> p(#[trigger] ls[i]),
    ensures
        forall|i: int|
            0 <= i < non_blank(ls).len() ==> p(#[trigger] non_blank(ls)[i]) && non_blank(ls)[i].len()
                > 0,
    decreases ls.len(),
{
    if ls.len() > 0 {
        let init = ls.drop_last();
        assert forall|i: int| 0 <= i < init.len() implies p(#[trigger] init[i]) by {
            assert(init[i] == ls[i]);
        }
        lemma_non_blank_all(init, p);
        let r = non_blank(init);
        assert(p(ls[ls.len() - 1]));
        assert forall|i: int| 0 <= i < non_blank(ls).len() implies p(#[trigger] non_blank(ls)[i])
            && non_blank(ls)[i].len() > 0 by {
            if i < r.len() {
                assert(non_blank(ls)[i] == r[i]);
            }
        }
    }
}

/// Every ledger that a record text holds is readable.
proof fn lemma_parsed_readable(t: Seq<char>)
    requires
        parse_spec(t) is Some,
    ensures
        readable(parse_spec(t)->0),
{
    let ls = split_spec(t);
    let m = parse_spec(t)->0;
    lemma_split_no_newline(t);
    let j = first_index(ls, 4, end_services());
    let k: int = ls.len() - 1;
    lemma_first_index_skips(ls, 4, end_services());
    let sv = ls.subrange(4, j);
    let tk = ls.subrange(j + 2, k);
    let ps = |e: Seq<char>| has_no_newline(e) && e != end_services();
    let pt = |e: Seq<char>| has_no_newline(e);
    assert forall|i: int| 0 <= i < sv.len() implies ps(#[trigger] sv[i]) by {
        assert(sv[i] == ls[4 + i]);
    }
    assert forall|i: int| 0 <= i < tk.len() implies pt(#[trigger] tk[i]) by {
        assert(tk[i] == ls[j + 2 + i]);
    }
    lemma_non_blank_all(sv, ps);
    lemma_non_blank_all(tk, pt);
    assert(has_no_newline(ls[1]));
}

/// Why a ledger operation did not take place.
#[derive(Debug, Clone, Copy, PartialEq, Eq, Structural)]
pub enum LedgerError {
    /// There is no ledger record.
    NotFound,
    /// The record is not in the four-section layout, or its id is not a UUID.
    Malformed,
    /// `create` was called where a record is present.
    AlreadyExists,
    /// The name to add is empty, spans lines, or is a section marker.
    InvalidEntry,
}

/// One of the two lists that the ledger holds.
#[derive(Debug, Clone, Copy, PartialEq, Eq, Structural)]
pub enum Section {
    Services,
    Tasks,
}

/// A ledger held in memory.
pub struct Ledger {
    pub agent_id: String,
    pub services: Vec<String>,
    pub tasks: Vec<String>,
}

impl View for Ledger {
    type V = LedgerModel;

    open spec fn view(&self) -> LedgerModel {
        LedgerModel {
            id: self.agent_id@,
            services: strings_view(self.services@),
            tasks: strings_view(self.tasks@),
        }
    }
}

pub open spec fn entries_of(m: LedgerModel, sec: Section) -> Seq<Seq<char>> {
    match sec {
        Section::Services => m.services,
        Section::Tasks => m.tasks,
    }
}

pub open spec fn with_entries(m: LedgerModel, sec: Section, es: Seq<Seq<char>>) -> LedgerModel {
    match sec {
        Section::Services => LedgerModel { services: es, ..m },
        Section::Tasks => LedgerModel { tasks: es, ..m },
    }
}

/// The list with `x` appended, unless it already holds `x`.
pub open spec fn added(es: Seq<Seq<char>>, x: Seq<char>) -> Seq<Seq<char>> {
    if es.contains(x) {
        es
    } else {
        es.push(x)
    }
}

/// The list without any entry equal to `x`, the others in order.
pub open spec fn removed(es: Seq<Seq<char>>, x: Seq<char>) -> Seq<Seq<char>>
    decreases es.len(),
{
    if es.len() == 0 {
        es
    } else {
        let r = removed(es.drop_last(), x);
        if es.last() == x {
            r
        } else {
            r.push(es.last())
        }
    }
}

fn is_line(line: &String, marker: &str) -> (r: bool)
    ensures
        r == (line@ == marker@),
{
    let m = String::from_str(marker);
    line.eq(&m)
}

fn find_line(ls: &Vec<String>, from: usize, target: &str) -> (r: usize)
    requires
        from <= ls.len(),
    ensures
        r as int == first_index(strings_view(ls@), from as int, target@),
        from <= r <= ls.len(),
{
    let ghost v = strings_view(ls@);
    let mut i = from;
    while i < ls.len() && !is_line(&ls[i], target)
        invariant
            from <= i <= ls.len(),
            v == strings_view(ls@),
            first_index(v, from as int, target@) == first_index(v, i as int, target@),
        decreases ls.len() - i,
    {
        i = i + 1;
    }
    i
}

fn non_blank_range(ls: &Vec<String>, lo: usize, hi: usize) -> (r: Vec<String>)
    requires
        lo <= hi <= ls.len(),
    ensures
        strings_view(r@) == non_blank(strings_view(ls@).subrange(lo as int, hi as int)),
{
    let ghost v = strings_view(ls@);
    let mut out: Vec<String> = Vec::new();
    let mut i = lo;
    proof {
        assert(v.subrange(lo as int, lo as int) =~= Seq::<Seq<char>>::empty());
        assert(strings_view(out@) =~= Seq::<Seq<char>>::empty());
    }
    while i < hi
        invariant
            lo <= i <= hi <= ls.len(),
            v == strings_view(ls@),
            strings_view(out@) == non_blank(v.subrange(lo as int, i as int)),
        decreases hi - i,
    {
        proof {
            assert(v.subrange(lo as int, i + 1).drop_last() =~= v.subrange(lo as int, i as int));
        }
        if ls[i].unicode_len() > 0 {
            out.push(ls[i].clone());
            proof {
                assert(strings_view(out@) =~= non_blank(v.subrange(lo as int, i as int)).push(
                    v[i as int],
                ));
            }
        }
        i = i + 1;
    }
    out
}

fn contains_entry(es: &Vec<String>, x: &str) -> (r: bool)
    ensures
        r == strings_view(es@).contains(x@),
{
    let mut i: usize = 0;
    while i < es.len()
        invariant
            i <= es.len(),
            forall|j: int| 0 <= j < i ==> es@[j]@ != x@,
        decreases es.len() - i,
    {
        if is_line(&es[i], x) {
            proof {
                assert(strings_view(es@)[i as int] == x@);
            }
            return true;
        }
        i = i + 1;
    }
    proof {
        if strings_view(es@).contains(x@) {
            let j = choose|j: int| 0 <= j < es@.len() && strings_view(es@)[j] == x@;
            assert(es@[j]@ == x@);
        }
    }
    false
}

fn remove_entry(es: &Vec<String>, x: &str) -> (r: Vec<String>)
    ensures
        strings_view(r@) == removed(strings_view(es@), x@),
{
    let ghost v = strings_view(es@);
    let mut out: Vec<String> = Vec::new();
    let mut i: usize = 0;
    proof {
        assert(v.take(0) =~= Seq::<Seq<char>>::empty());
        assert(strings_view(out@) =~= Seq::<Seq<char>>::empty());
    }
    while i < es.len()
        invariant
            i <= es.len(),
            v == strings_view(es@),
            strings_view(out@) == removed(v.take(i as int), x@),
        decreases es.len() - i,
    {
        proof {
            assert(v.take(i + 1).drop_last() =~= v.take(i as int));
        }
        if !is_line(&es[i], x) {
            out.push(es[i].clone());
            proof {
                assert(strings_view(out@) =~= removed(v.take(i as int), x@).push(v[i as int]));
            }
        }
        i = i + 1;
    }
    proof {
        assert(v.take(es.len() as int) =~= v);
    }
    out
}

fn copy_strings(es: &Vec<String>) -> (r: Vec<String>)
    ensures
        strings_view(r@) == strings_view(es@),
{
    let mut out: Vec<String> = Vec::new();
    let mut i: usize = 0;
    while i < es.len()
        invariant
            i <= es.len(),
            strings_view(out@) == strings_view(es@.take(i as int)),
        decreases es.len() - i,
    {
        let c = es[i].clone();
        proof {
            lemma_view_push(out@, c);
            lemma_view_take(es@, i as int);
        }
        out.push(c);
        i = i + 1;
    }
    proof {
        assert(es@.take(es.len() as int) =~= es@);
    }
    out
}

fn push_line(ls: &mut Vec<String>, s: String)
    ensures
        strings_view(final(ls)@) == strings_view(old(ls)@).push(s@),
{
    proof {
        lemma_view_push(ls@, s);
    }
    ls.push(s);
}

fn push_section(ls: &mut Vec<String>, es: &Vec<String>)
    ensures
        strings_view(final(ls)@) == strings_view(old(ls)@) + section_body(strings_view(es@)),
{
    if es.len() == 0 {
        ls.push(String::new());
        proof {
            assert(strings_view(final(ls)@) =~= strings_view(old(ls)@) + section_body(
                strings_view(es@),
            ));
        }
    } else {
        let mut i: usize = 0;
        while i < es.len()
            invariant
                i <= es.len(),
                strings_view(ls@) == strings_view(old(ls)@) + strings_view(es@.take(i as int)),
            decreases es.len() - i,
        {
            let c = es[i].clone();
            proof {
                lemma_view_push(ls@, c);
                lemma_view_take(es@, i as int);
                assert(strings_view(old(ls)@) + strings_view(es@.take(i as int)).push(c@)
                    =~= (strings_view(old(ls)@) + strings_view(es@.take(i as int))).push(c@));
            }
            ls.push(c);
            i = i + 1;
        }
        proof {
            assert(es@.take(es.len() as int) =~= es@);
        }
    }
}

impl Ledger {
    /// A ledger with the given id and two empty lists.
    pub fn new(agent_id: String) -> (r: Ledger)
        ensures
            r@ == (LedgerModel {
                id: agent_id@,
                services: Seq::<Seq<char>>::empty(),
                tasks: Seq::<Seq<char>>::empty(),
            }),
    {
        let r = Ledger { agent_id, services: Vec::new(), tasks: Vec::new() };
        proof {
            assert(strings_view(r.services@) =~= Seq::<Seq<char>>::empty());
            assert(strings_view(r.tasks@) =~= Seq::<Seq<char>>::empty());
        }
        r
    }

    /// Reads a ledger from its record text.
    pub fn parse(text: &str) -> (r: Result<Ledger, LedgerError>)
        ensures
            match parse_spec(text@) {
                Some(m) => r is Ok && r->Ok_0@ == m,
                None => r == Err::<Ledger, LedgerError>(LedgerError::Malformed),
            },
    {
        let ls = split_lines(text);
        let ghost v = strings_view(ls@);
        let n = ls.len();
        if n < 7 || !is_line(&ls[0], "-----BEGIN UUID-----") || !is_line(&ls[2], "-----END UUID-----")
            || !is_line(&ls[3], "-----BEGIN SERVICES TO VERIFY-----") {
            return Err(LedgerError::Malformed);
        }
        let j = find_line(&ls, 4, "-----END SERVICES TO VERIFY-----");
        let k = n - 1;
        if j >= k || j + 2 > k || !is_line(&ls[j + 1], "-----BEGIN TASKS TO VERIFY-----")
            || !is_line(&ls[k], "-----END TASKS TO VERIFY-----") {
            return Err(LedgerError::Malformed);
        }
        let services = non_blank_range(&ls, 4, j);
        let tasks = non_blank_range(&ls, j + 2, k);
        let agent_id = ls[1].clone();
        Ok(Ledger { agent_id, services, tasks })
    }

    /// The record text of this ledger.
    pub fn render(&self) -> (r: String)
        ensures
            r@ == render_spec(self@),
    {
        let mut ls: Vec<String> = Vec::new();
        push_line(&mut ls, String::from_str("-----BEGIN UUID-----"));
        push_line(&mut ls, self.agent_id.clone());
        push_line(&mut ls, String::from_str("-----END UUID-----"));
        push_line(&mut ls, String::from_str("-----BEGIN SERVICES TO VERIFY-----"));
        let ghost head = strings_view(ls@);
        push_section(&mut ls, &self.services);
        push_line(&mut ls, String::from_str("-----END SERVICES TO VERIFY-----"));
        push_line(&mut ls, String::from_str("-----BEGIN TASKS TO VERIFY-----"));
        let ghost middle = strings_view(ls@);
        push_section(&mut ls, &self.tasks);
        push_line(&mut ls, String::from_str("-----END TASKS TO VERIFY-----"));
        proof {
            let m = self@;
            assert(head =~= seq![begin_uuid(), m.id, end_uuid(), begin_services()]);
            assert(middle =~= head + section_body(m.services) + seq![end_services(), begin_tasks()]);
            assert(strings_view(ls@) =~= middle + section_body(m.tasks) + seq![end_tasks()]);
            assert(strings_view(ls@) =~= ledger_lines(self@));
        }
        join_lines(&ls)
    }

    /// The entries of one list.
    pub fn entries(&self, sec: Section) -> (r: Vec<String>)
        ensures
            strings_view(r@) == entries_of(self@, sec),
    {
        match sec {
            Section::Services => copy_strings(&self.services),
            Section::Tasks => copy_strings(&self.tasks),
        }
    }

    /// Appends `name` to one list unless it is there already.
    pub fn add_entry(&mut self, sec: Section, name: &str)
        ensures
            final(self)@ == with_entries(old(self)@, sec, added(entries_of(old(self)@, sec), name@)),
    {
        match sec {
            Section::Services => {
                if !contains_entry(&self.services, name) {
                    let e = String::from_str(name);
                    proof {
                        lemma_view_push(self.services@, e);
                    }
                    self.services.push(e);
                }
            },
            Section::Tasks => {
                if !contains_entry(&self.tasks, name) {
                    let e = String::from_str(name);
                    proof {
                        lemma_view_push(self.tasks@, e);
                    }
                    self.tasks.push(e);
                }
            },
        }
    }

    /// Removes every entry equal to `name` from one list.
    pub fn remove_entry(&mut self, sec: Section, name: &str)
        ensures
            final(self)@ == with_entries(old(self)@, sec, removed(entries_of(old(self)@, sec), name@)),
    {
        match sec {
            Section::Services => {
                self.services = remove_entry(&self.services, name);
            },
            Section::Tasks => {
                self.tasks = remove_entry(&self.tasks, name);
            },
        }
    }
}

pub open spec fn is_hyphen_index(i: int) -> bool {
    i == 8 || i == 13 || i == 18 || i == 23
}

pub open spec fn is_hex_digit(c: char) -> bool {
    ('0' <= c && c <= '9') || ('a' <= c && c <= 'f') || ('A' <= c && c <= 'F')
}

pub open spec fn is_lower_hex_digit(c: char) -> bool {
    ('0' <= c && c <= '9') || ('a' <= c && c <= 'f')
}

/// The value of a hexadecimal digit.
pub open spec fn hex_value(c: char) -> int {
    if '0' <= c && c <= '9' {
        c as int - '0' as int
    } else if 'a' <= c && c <= 'f' {
        c as int - 'a' as int + 10
    } else {
        c as int - 'A' as int + 10
    }
}

/// Text in the hyphenated UUID form `8-4-4-4-12`, hex digits of either case.
pub open spec fn uuid_shaped(s: Seq<char>) -> bool {
    s.len() == 36 && forall|i: int|
        0 <= i < 36 ==> if is_hyphen_index(i) {
            s[i] == '-'
        } else {
            is_hex_digit(#[trigger] s[i])
        }
}

/// A UUID in its canonical text: hyphenated, lower-case hex digits.
pub open spec fn is_uuid_text(s: Seq<char>) -> bool {
    uuid_shaped(s) && forall|i: int|
        0 <= i < 36 && !is_hyphen_index(i) ==> is_lower_hex_digit(#[trigger] s[i])
}

/// Two UUID texts with the same digit values in every place.
pub open spec fn same_uuid(a: Seq<char>, b: Seq<char>) -> bool {
    a.len() == b.len() && forall|i: int| 0 <= i < a.len() ==> hex_value(#[trigger] a[i]) == hex_value(b[i])
}

/// A random (version 4, RFC 4122 variant) UUID in canonical text.
pub open spec fn is_v4_uuid_text(s: Seq<char>) -> bool {
    is_uuid_text(s) && s[14] == '4' && (s[19] == '8' || s[19] == '9' || s[19] == 'a' || s[19]
        == 'b')
}

/// Thirty-two hex digits without hyphens.
pub open spec fn is_simple_uuid(s: Seq<char>) -> bool {
    s.len() == 32 && forall|i: int| 0 <= i < 32 ==> is_hex_digit(#[trigger] s[i])
}

/// The hyphenated form between `{` and `}`.
pub open spec fn is_braced_uuid(s: Seq<char>) -> bool {
    s.len() == 38 && s[0] == '{' && s[37] == '}' && uuid_shaped(s.subrange(1, 37))
}

pub open spec fn either_case(c: char, lower: char, upper: char) -> bool {
    c == lower || c == upper
}

/// The hyphenated form after `urn:uuid:`, the prefix in either case.
pub open spec fn is_urn_uuid(s: Seq<char>) -> bool {
    &&& s.len() == 45
    &&& either_case(s[0], 'u', 'U') && either_case(s[1], 'r', 'R') && either_case(s[2], 'n', 'N')
    &&& s[3] == ':'
    &&& either_case(s[4], 'u', 'U') && either_case(s[5], 'u', 'U') && either_case(s[6], 'i', 'I')
    &&& either_case(s[7], 'd', 'D')
    &&& s[8] == ':'
    &&& uuid_shaped(s.subrange(9, 45))
}

/// The texts that read as a UUID: simple, hyphenated, braced or URN form.
pub open spec fn uuid_parses(s: Seq<char>) -> bool {
    is_simple_uuid(s) || uuid_shaped(s) || is_braced_uuid(s) || is_urn_uuid(s)
}

/// The digits of a hyphenated UUID text, without the hyphens.
pub open spec fn hyphenated_digits(s: Seq<char>) -> Seq<char> {
    s.subrange(0, 8) + s.subrange(9, 13) + s.subrange(14, 18) + s.subrange(19, 23) + s.subrange(
        24,
        36,
    )
}

/// The thirty-two hex digits that a UUID text in any accepted form writes.
pub open spec fn uuid_digits(s: Seq<char>) -> Seq<char> {
    if is_simple_uuid(s) {
        s
    } else if uuid_shaped(s) {
        hyphenated_digits(s)
    } else if is_braced_uuid(s) {
        hyphenated_digits(s.subrange(1, 37))
    } else {
        hyphenated_digits(s.subrange(9, 45))
    }
}

/// Digit texts of the same length with the same value in every place.
pub open spec fn same_digits(a: Seq<char>, b: Seq<char>) -> bool {
    a.len() == b.len() && forall|i: int| 0 <= i < a.len() ==> hex_value(#[trigger] a[i]) == hex_value(b[i])
}

/// Relies on uuid::Uuid::new_v4 and its `Display`, which writes the
/// hyphenated lower-case form; new_v4 sets the version digit to `4` and the
/// variant bits to `10`.
#[verifier::external_body]
fn new_uuid_text() -> (r: String)
    ensures
        is_v4_uuid_text(r@),
{
    uuid::Uuid::new_v4().to_string()
}

/// Relies on uuid::Uuid::parse_str, which accepts exactly the simple,
/// hyphenated, braced and URN forms with hex digits of either case and reads
/// the digits in order, and on its `Display`, which writes the same digits in
/// lower case, hyphenated.
#[verifier::external_body]
fn canonical_uuid(s: &str) -> (r: Option<String>)
    ensures
        r is Some <==> uuid_parses(s@),
        r is Some ==> same_digits(uuid_digits(r->0@), uuid_digits(s@)),
        uuid_shaped(s@) ==> r is Some && same_uuid(r->0@, s@),
        r is Some ==> is_uuid_text(r->0@),
{
    match uuid::Uuid::parse_str(s) {
        Ok(u) => Some(u.to_string()),
        Err(_) => None,
    }
}

pub open spec fn new_model(id: Seq<char>) -> LedgerModel {
    LedgerModel { id, services: Seq::<Seq<char>>::empty(), tasks: Seq::<Seq<char>>::empty() }
}

/// The ledger that a store holds, or why it holds none.
pub open spec fn read_spec(rec: Option<Seq<char>>) -> Result<LedgerModel, LedgerError> {
    match rec {
        None => Err(LedgerError::NotFound),
        Some(t) => match parse_spec(t) {
            None => Err(LedgerError::Malformed),
            Some(m) => Ok(m),
        },
    }
}

pub open spec fn edited(es: Seq<Seq<char>>, name: Seq<char>, adding: bool) -> Seq<Seq<char>> {
    if adding {
        added(es, name)
    } else {
        removed(es, name)
    }
}

/// The record after adding (or removing) `name` in one list, or the error.
/// Only a name to add must be a valid entry; removing any name drops its
/// exact matches, and does nothing where there is none.
pub open spec fn edit_spec(rec: Option<Seq<char>>, sec: Section, name: Seq<char>, adding: bool) -> Result<
    Seq<char>,
    LedgerError,
> {
    match read_spec(rec) {
        Err(e) => Err(e),
        Ok(m) => if adding && !valid_entry(name) {
            Err(LedgerError::InvalidEntry)
        } else {
            Ok(render_spec(with_entries(m, sec, edited(entries_of(m, sec), name, adding))))
        },
    }
}

fn is_valid_entry(name: &str) -> (r: bool)
    ensures
        r == valid_entry(name@),
{
    let n = name.unicode_len();
    if n == 0 {
        return false;
    }
    let mut i: usize = 0;
    while i < n
        invariant
            i <= n,
            n == name@.len(),
            forall|j: int| 0 <= j < i ==> name@[j] != '\n',
        decreases n - i,
    {
        if name.get_char(i) == '\n' {
            return false;
        }
        i = i + 1;
    }
    let s = String::from_str(name);
    !(is_line(&s, "-----BEGIN UUID-----") || is_line(&s, "-----END UUID-----") || is_line(
        &s,
        "-----BEGIN SERVICES TO VERIFY-----",
    ) || is_line(&s, "-----END SERVICES TO VERIFY-----") || is_line(
        &s,
        "-----BEGIN TASKS TO VERIFY-----",
    ) || is_line(&s, "-----END TASKS TO VERIFY-----"))
}

/// The persisted ledger record: its text, or `None` where there is none.
/// Every operation reads the whole record and writes it back whole.
pub struct LedgerStore {
    pub record: Option<String>,
}

impl LedgerStore {
    pub open spec fn record_view(&self) -> Option<Seq<char>> {
        match self.record {
            Some(t) => Some(t@),
            None => None,
        }
    }

    /// Whether a record is present.
    pub fn has_record(&self) -> (r: bool)
        ensures
            r == self.record is Some,
    {
        self.record.is_some()
    }

    fn load(&self) -> (r: Result<Ledger, LedgerError>)
        ensures
            match read_spec(self.record_view()) {
                Ok(m) => r is Ok && r->Ok_0@ == m,
                Err(e) => r == Err::<Ledger, LedgerError>(e),
            },
    {
        match &self.record {
            None => Err(LedgerError::NotFound),
            Some(t) => Ledger::parse(t.as_str()),
        }
    }

    /// Writes a fresh record with a newly drawn id and two empty lists; a
    /// present record is left alone.
    pub fn create(&mut self) -> (r: Result<(), LedgerError>)
        ensures
            old(self).record is Some ==> r == Err::<(), LedgerError>(LedgerError::AlreadyExists)
                && final(self).record_view() == old(self).record_view(),
            old(self).record is None ==> r is Ok && exists|id: Seq<char>|
                is_v4_uuid_text(id) && final(self).record_view() == Some(
                    render_spec(new_model(id)),
                ),
    {
        if self.record.is_some() {
            return Err(LedgerError::AlreadyExists);
        }
        let id = new_uuid_text();
        let r = self.create_with_id(id);
        proof {
            assert(is_v4_uuid_text(id@) && final(self).record_view() == Some(
                render_spec(new_model(id@)),
            ));
        }
        r
    }

    /// Writes a fresh record with the given id and two empty lists; a present
    /// record is left alone.
    pub fn create_with_id(&mut self, agent_id: String) -> (r: Result<(), LedgerError>)
        requires
            is_uuid_text(agent_id@),
        ensures
            old(self).record is Some ==> r == Err::<(), LedgerError>(LedgerError::AlreadyExists)
                && final(self).record_view() == old(self).record_view(),
            old(self).record is None ==> r is Ok && final(self).record_view() == Some(
                render_spec(new_model(agent_id@)),
            ),
    {
        if self.record.is_some() {
            return Err(LedgerError::AlreadyExists);
        }
        let ledger = Ledger::new(agent_id);
        self.record = Some(ledger.render());
        Ok(())
    }

    /// The agent id, in canonical UUID text.
    pub fn read_agent_id(&self) -> (r: Result<String, LedgerError>)
        ensures
            match read_spec(self.record_view()) {
                Err(e) => r == Err::<String, LedgerError>(e),
                Ok(m) => {
                    &&& r is Ok <==> uuid_parses(m.id)
                    &&& r is Ok ==> is_uuid_text(r->Ok_0@)
                    &&& r is Ok ==> same_digits(uuid_digits(r->Ok_0@), uuid_digits(m.id))
                    &&& uuid_shaped(m.id) ==> r is Ok && same_uuid(r->Ok_0@, m.id)
                    &&& r is Err ==> r == Err::<String, LedgerError>(LedgerError::Malformed)
                },
            },
    {
        let ledger = self.load()?;
        match canonical_uuid(ledger.agent_id.as_str()) {
            Some(id) => Ok(id),
            None => Err(LedgerError::Malformed),
        }
    }

    /// The entries of one list, in order.
    pub fn read_entries(&self, sec: Section) -> (r: Result<Vec<String>, LedgerError>)
        ensures
            match read_spec(self.record_view()) {
                Err(e) => r == Err::<Vec<String>, LedgerError>(e),
                Ok(m) => r is Ok && strings_view(r->Ok_0@) == entries_of(m, sec),
            },
    {
        let ledger = self.load()?;
        Ok(ledger.entries(sec))
    }

    /// Adds or removes `name` in one list and writes the record back.
    pub fn edit(&mut self, sec: Section, name: &str, adding: bool) -> (r: Result<(), LedgerError>)
        ensures
            match edit_spec(old(self).record_view(), sec, name@, adding) {
                Ok(t) => r is Ok && final(self).record_view() == Some(t),
                Err(e) => r == Err::<(), LedgerError>(e) && final(self).record_view() == old(
                    self,
                ).record_view(),
            },
    {
        let mut ledger = self.load()?;
        if adding && !is_valid_entry(name) {
            return Err(LedgerError::InvalidEntry);
        }
        if adding {
            ledger.add_entry(sec, name);
        } else {
            ledger.remove_entry(sec, name);
        }
        self.record = Some(ledger.render());
        Ok(())
    }

    /// Appends `name` to the services unless it is there already.
    pub fn add_service(&mut self, name: &str) -> (r: Result<(), LedgerError>)
        ensures
            match edit_spec(old(self).record_view(), Section::Services, name@, true) {
                Ok(t) => r is Ok && final(self).record_view() == Some(t),
                Err(e) => r == Err::<(), LedgerError>(e) && final(self).record_view() == old(
                    self,
                ).record_view(),
            },
    {
        self.edit(Section::Services, name, true)
    }

    /// Removes `name` from the services.
    pub fn remove_service(&mut self, name: &str) -> (r: Result<(), LedgerError>)
        ensures
            match edit_spec(old(self).record_view(), Section::Services, name@, false) {
                Ok(t) => r is Ok && final(self).record_view() == Some(t),
                Err(e) => r == Err::<(), LedgerError>(e) && final(self).record_view() == old(
                    self,
                ).record_view(),
            },
    {
        self.edit(Section::Services, name, false)
    }

    /// Appends `name` to the tasks unless it is there already.
    pub fn add_task(&mut self, name: &str) -> (r: Result<(), LedgerError>)
        ensures
            match edit_spec(old(self).record_view(), Section::Tasks, name@, true) {
                Ok(t) => r is Ok && final(self).record_view() == Some(t),
                Err(e) => r == Err::<(), LedgerError>(e) && final(self).record_view() == old(
                    self,
                ).record_view(),
            },
    {
        self.edit(Section::Tasks, name, true)
    }

    /// Removes `name` from the tasks.
    pub fn remove_task(&mut self, name: &str) -> (r: Result<(), LedgerError>)
        ensures
            match edit_spec(old(self).record_view(), Section::Tasks, name@, false) {
                Ok(t) => r is Ok && final(self).record_view() == Some(t),
                Err(e) => r == Err::<(), LedgerError>(e) && final(self).record_view() == old(
                    self,
                ).record_view(),
            },
    {
        self.edit(Section::Tasks, name, false)
    }

    /// The services, in order.
    pub fn read_services(&self) -> (r: Result<Vec<String>, LedgerError>)
        ensures
            match read_spec(self.record_view()) {
                Err(e) => r == Err::<Vec<String>, LedgerError>(e),
                Ok(m) => r is Ok && strings_view(r->Ok_0@) == m.services,
            },
    {
        self.read_entries(Section::Services)
    }

    /// The tasks, in order.
    pub fn read_tasks(&self) -> (r: Result<Vec<String>, LedgerError>)
        ensures
            match read_spec(self.record_view()) {
                Err(e) => r == Err::<Vec<String>, LedgerError>(e),
                Ok(m) => r is Ok && strings_view(r->Ok_0@) == m.tasks,
            },
    {
        self.read_entries(Section::Tasks)
    }

    /// Rewrites the record in its normal form, without blank entries.
    pub fn compact(&mut self) -> (r: Result<(), LedgerError>)
        ensures
            match read_spec(old(self).record_view()) {
                Ok(m) => r is Ok && final(self).record_view() == Some(render_spec(m)),
                Err(e) => r == Err::<(), LedgerError>(e) && final(self).record_view() == old(
                    self,
                ).record_view(),
            },
    {
        let ledger = self.load()?;
        self.record = Some(ledger.render());
        Ok(())
    }
}

proof fn lemma_added_ok(sec: Section, es: Seq<Seq<char>>, x: Seq<char>)
    requires
        section_ok(sec, es),
        valid_entry(x),
    ensures
        section_ok(sec, added(es, x)),
        added(es, x).contains(x),
{
    lemma_markers();
    if !es.contains(x) {
        assert(es.push(x)[es.len() as int] == x);
        assert forall|i: int| 0 <= i < es.push(x).len() implies entry_line(
            #[trigger] es.push(x)[i],
        ) && (sec == Section::Services ==> es.push(x)[i] != end_services()) by {
            if i < es.len() {
                assert(es.push(x)[i] == es[i]);
            }
        }
    }
}

proof fn lemma_removed_absent(es: Seq<Seq<char>>, x: Seq<char>)
    requires
        !es.contains(x),
    ensures
        removed(es, x) == es,
    decreases es.len(),
{
    if es.len() > 0 {
        let init = es.drop_last();
        assert forall|i: int| 0 <= i < init.len() implies init[i] != x by {
            assert(init[i] == es[i]);
        }
        lemma_removed_absent(init, x);
        assert(es[es.len() - 1] != x);
        assert(init.push(es.last()) =~= es);
    }
}

proof fn lemma_removed_ok(sec: Section, es: Seq<Seq<char>>, x: Seq<char>)
    requires
        section_ok(sec, es),
    ensures
        section_ok(sec, removed(es, x)),
        !removed(es, x).contains(x),
    decreases es.len(),
{
    if es.len() > 0 {
        let init = es.drop_last();
        assert forall|i: int| 0 <= i < init.len() implies entry_line(#[trigger] init[i]) && (sec
            == Section::Services ==> init[i] != end_services()) by {
            assert(init[i] == es[i]);
        }
        lemma_removed_ok(sec, init, x);
        let r = removed(init, x);
        assert(entry_line(es[es.len() - 1]));
        if es.last() != x {
            assert forall|i: int| 0 <= i < r.push(es.last()).len() implies entry_line(
                #[trigger] r.push(es.last())[i],
            ) && (sec == Section::Services ==> r.push(es.last())[i] != end_services()) by {
                if i < r.len() {
                    assert(r.push(es.last())[i] == r[i]);
                }
            }
            assert forall|i: int| 0 <= i < r.push(es.last()).len() implies r.push(es.last())[i]
                != x by {
                if i < r.len() {
                    assert(r.push(es.last())[i] == r[i]);
                }
            }
        }
    }
}

proof fn lemma_model_edit_ok(m: LedgerModel, sec: Section, es: Seq<Seq<char>>)
    requires
        readable(m),
        section_ok(sec, es),
    ensures
        readable(with_entries(m, sec, es)),
        entries_of(with_entries(m, sec, es), sec) == es,
        with_entries(with_entries(m, sec, es), sec, entries_of(m, sec)) == m,
{
}

/// Adding an entry twice to any record that reads leaves the record as the
/// first addition left it.
pub proof fn law_add_idempotent(t: Seq<char>, sec: Section, x: Seq<char>)
    requires
        read_spec(Some(t)) is Ok,
        valid_entry(x),
    ensures
        ({
            let m = read_spec(Some(t))->Ok_0;
            let once = render_spec(with_entries(m, sec, added(entries_of(m, sec), x)));
            edit_spec(Some(t), sec, x, true) == Ok::<Seq<char>, LedgerError>(once) && edit_spec(
                Some(once),
                sec,
                x,
                true,
            ) == Ok::<Seq<char>, LedgerError>(once)
        }),
{
    let m = read_spec(Some(t))->Ok_0;
    lemma_parsed_readable(t);
    let es = added(entries_of(m, sec), x);
    lemma_added_ok(sec, entries_of(m, sec), x);
    lemma_model_edit_ok(m, sec, es);
    let m1 = with_entries(m, sec, es);
    lemma_render_parse(m1);
    assert(added(es, x) == es);
    assert(with_entries(m1, sec, es) == m1);
}

/// Adding an entry that a list does not hold to any record that reads, and
/// then removing it, gives the record in its compacted form: the rendering of
/// the ledger it held.
pub proof fn law_add_then_remove(t: Seq<char>, sec: Section, x: Seq<char>)
    requires
        read_spec(Some(t)) is Ok,
        valid_entry(x),
        !entries_of(read_spec(Some(t))->Ok_0, sec).contains(x),
    ensures
        ({
            let m = read_spec(Some(t))->Ok_0;
            let once = render_spec(with_entries(m, sec, added(entries_of(m, sec), x)));
            edit_spec(Some(t), sec, x, true) == Ok::<Seq<char>, LedgerError>(once) && edit_spec(
                Some(once),
                sec,
                x,
                false,
            ) == Ok::<Seq<char>, LedgerError>(render_spec(m))
        }),
{
    let m = read_spec(Some(t))->Ok_0;
    lemma_parsed_readable(t);
    let old_es = entries_of(m, sec);
    let es = added(old_es, x);
    lemma_added_ok(sec, old_es, x);
    lemma_model_edit_ok(m, sec, es);
    let m1 = with_entries(m, sec, es);
    lemma_render_parse(m1);
    lemma_removed_absent(old_es, x);
    assert(es.drop_last() =~= old_es);
    assert(removed(es, x) == old_es);
}

/// Removing any name from any record that reads succeeds, and the record
/// then reads as the same ledger with that list's exact matches of the name
/// dropped and the other entries in order.
pub proof fn law_remove_reads_back(t: Seq<char>, sec: Section, x: Seq<char>)
    requires
        read_spec(Some(t)) is Ok,
    ensures
        ({
            let m = read_spec(Some(t))->Ok_0;
            let after = with_entries(m, sec, removed(entries_of(m, sec), x));
            &&& edit_spec(Some(t), sec, x, false) == Ok::<Seq<char>, LedgerError>(render_spec(after))
            &&& read_spec(Some(render_spec(after))) == Ok::<LedgerModel, LedgerError>(after)
            &&& !entries_of(after, sec).contains(x)
        }),
{
    let m = read_spec(Some(t))->Ok_0;
    lemma_parsed_readable(t);
    let es = removed(entries_of(m, sec), x);
    lemma_removed_ok(sec, entries_of(m, sec), x);
    lemma_model_edit_ok(m, sec, es);
    lemma_render_parse(with_entries(m, sec, es));
}

/// Two canonical UUID texts with the same digit values are the same text.
pub proof fn lemma_same_uuid_text(a: Seq<char>, b: Seq<char>)
    requires
        is_uuid_text(a),
        is_uuid_text(b),
        same_uuid(a, b),
    ensures
        a == b,
{
    assert forall|i: int| 0 <= i < 36 implies a[i] == b[i] by {
        if !is_hyphen_index(i) {
            assert(is_lower_hex_digit(a[i]) && is_lower_hex_digit(b[i]));
            assert(hex_value(a[i]) == hex_value(b[i]));
        }
    }
    assert(a =~= b);
}

/// A freshly created record reads back as the ledger with that id and two
/// empty lists, and the id it holds is a UUID that reads back unchanged.
pub proof fn law_create_then_read(id: Seq<char>)
    requires
        is_uuid_text(id),
    ensures
        read_spec(Some(render_spec(new_model(id)))) == Ok::<LedgerModel, LedgerError>(new_model(id)),
        uuid_parses(id),
        forall|u: Seq<char>| is_uuid_text(u) && same_uuid(u, id) ==> u == id,
{
    assert forall|i: int| 0 <= i < id.len() implies id[i] != '\n' by {
        if !is_hyphen_index(i) {
            assert(is_lower_hex_digit(id[i]));
        }
    }
    lemma_render_parse(new_model(id));
    assert forall|u: Seq<char>| is_uuid_text(u) && same_uuid(u, id) implies u == id by {
        lemma_same_uuid_text(u, id);
    }
}

/// Rendering a ledger whose entries are lines (no services entry closing the
/// services) into a store and reading it gives the same id and the same
/// lists, in order.
pub proof fn law_write_then_read(m: LedgerModel)
    requires
        readable(m),
    ensures
        read_spec(Some(render_spec(m))) == Ok::<LedgerModel, LedgerError>(m),
{
    lemma_render_parse(m);
}

} // verus!
