//! The mount-table model: one entry per mount (identity and string
//! fields), an immutable snapshot parsed from the text of a
//! mount-information file, lookups by source and by target path, and the
//! mount operation context that replays an entry at a new target.

use vstd::prelude::*;
use vstd::seq_lib::*;
use vstd::string::StrSliceExecFns;
use vstd::string::StringExecFns;

use crate::text::dec_val;
use crate::text::is_dec_u32;
use crate::text::spec_split;
use crate::text::spec_unescape;
use crate::text::split_chars;
use crate::text::str_eq;
use crate::text::unescape;

verus! {

/// The mathematical value of one mount-table record.
pub ghost struct FsView {
    pub id: u32,
    pub parent_id: u32,
    pub dev_major: u32,
    pub dev_minor: u32,
    pub root: Seq<char>,
    pub target: Seq<char>,
    pub fstype: Seq<char>,
    pub source: Seq<char>,
}

/// One record of a mount-table snapshot: identity (id, parent id, device
/// number) and string fields (mount root, target, filesystem type, source).
#[derive(Debug)]
pub struct FS {
    id: u32,
    parent_id: u32,
    dev_major: u32,
    dev_minor: u32,
    root: String,
    target: String,
    fstype: String,
    source: String,
}

impl View for FS {
    type V = FsView;

    closed spec fn view(&self) -> FsView {
        FsView {
            id: self.id,
            parent_id: self.parent_id,
            dev_major: self.dev_major,
            dev_minor: self.dev_minor,
            root: self.root@,
            target: self.target@,
            fstype: self.fstype@,
            source: self.source@,
        }
    }
}

impl DeepView for FS {
    type V = FsView;

    open spec fn deep_view(&self) -> FsView {
        self.view()
    }
}

impl Clone for FS {
    /// An owned copy: a record's fields are a static description, so the
    /// copy stays valid however the snapshot it came from evolves.
    fn clone(&self) -> (r: Self)
        ensures
            r@ == self@,
    {
        FS {
            id: self.id,
            parent_id: self.parent_id,
            dev_major: self.dev_major,
            dev_minor: self.dev_minor,
            root: self.root.clone(),
            target: self.target.clone(),
            fstype: self.fstype.clone(),
            source: self.source.clone(),
        }
    }
}

impl FS {
    /// Build a record from its fields.
    pub fn new(
        id: u32,
        parent_id: u32,
        dev_major: u32,
        dev_minor: u32,
        root: String,
        target: String,
        fstype: String,
        source: String,
    ) -> (r: FS)
        ensures
            r@ == (FsView {
                id,
                parent_id,
                dev_major,
                dev_minor,
                root: root@,
                target: target@,
                fstype: fstype@,
                source: source@,
            }),
    {
        FS { id, parent_id, dev_major, dev_minor, root, target, fstype, source }
    }

    /// The mount id.
    pub fn id(&self) -> (r: u32)
        ensures
            r == self@.id,
    {
        self.id
    }

    /// The id of the parent mount.
    pub fn parent_id(&self) -> (r: u32)
        ensures
            r == self@.parent_id,
    {
        self.parent_id
    }

    /// The device number: the major and minor numbers packed into one
    /// word, so that two records compare equal exactly when their
    /// major:minor pairs do.
    pub fn devno(&self) -> (r: u64)
        ensures
            r == self@.dev_major as u64 * 0x1_0000_0000 + self@.dev_minor as u64,
    {
        self.dev_major as u64 * 0x1_0000_0000 + self.dev_minor as u64
    }

    /// The major device number.
    pub fn dev_major(&self) -> (r: u32)
        ensures
            r == self@.dev_major,
    {
        self.dev_major
    }

    /// The minor device number.
    pub fn dev_minor(&self) -> (r: u32)
        ensures
            r == self@.dev_minor,
    {
        self.dev_minor
    }

    /// The root of the mount within its filesystem.
    pub fn root(&self) -> (r: &String)
        ensures
            r@ == self@.root,
    {
        &self.root
    }

    /// The mount source field.
    pub fn source(&self) -> (r: &String)
        ensures
            r@ == self@.source,
    {
        &self.source
    }

    /// The canonical source path: the source field when it is a path.
    pub fn srcpath(&self) -> (r: Option<&String>)
        ensures
            match r {
                Some(p) => p@ == self@.source && self@.source.len() > 0 && self@.source[0]
                    == '/',
                None => !(self@.source.len() > 0 && self@.source[0] == '/'),
            },
    {
        if self.source.as_str().unicode_len() > 0 && self.source.as_str().get_char(0) == '/' {
            Some(&self.source)
        } else {
            None
        }
    }

    /// The path where the record is mounted.
    pub fn target(&self) -> (r: &String)
        ensures
            r@ == self@.target,
    {
        &self.target
    }

    /// The filesystem type.
    pub fn fstype(&self) -> (r: &String)
        ensures
            r@ == self@.fstype,
    {
        &self.fstype
    }
}

/// The separator field between the optional fields and the filesystem type.
pub open spec fn dash() -> Seq<char> {
    seq!['-']
}

/// What the `major:minor` device field of a record yields.
pub open spec fn spec_parse_dev(s: Seq<char>) -> Option<(u32, u32)> {
    let f = spec_split(s, ':');
    if f.len() == 2 && is_dec_u32(f[0]) && is_dec_u32(f[1]) {
        Some((dec_val(f[0]) as u32, dec_val(f[1]) as u32))
    } else {
        None
    }
}

/// What one line of a mount-information file yields. Space-separated
/// fields: id, parent id, `major:minor`, root, target, options, then any
/// optional fields up to a lone `-`, then filesystem type and source.
/// The path fields (root, target, source) carry the kernel's octal
/// escapes and are stored unescaped.
pub open spec fn spec_parse_line(line: Seq<char>) -> Option<FsView> {
    let f = spec_split(line, ' ');
    if f.len() < 7 {
        None
    } else {
        match f.skip(6).index_of_first(dash()) {
            None => None,
            Some(jr) => {
                let j = 6 + jr;
                if j + 2 < f.len() && is_dec_u32(f[0]) && is_dec_u32(f[1]) && spec_parse_dev(
                    f[2],
                ) is Some {
                    let dev = spec_parse_dev(f[2]).unwrap();
                    Some(
                        FsView {
                            id: dec_val(f[0]) as u32,
                            parent_id: dec_val(f[1]) as u32,
                            dev_major: dev.0,
                            dev_minor: dev.1,
                            root: spec_unescape(f[3]),
                            target: spec_unescape(f[4]),
                            fstype: f[j + 1],
                            source: spec_unescape(f[j + 2]),
                        },
                    )
                } else {
                    None
                }
            },
        }
    }
}

/// What a sequence of lines yields: empty lines are skipped, any other
/// line that fails to parse fails the whole table.
pub open spec fn spec_parse_lines(lines: Seq<Seq<char>>) -> Option<Seq<FsView>>
    decreases lines.len(),
{
    if lines.len() == 0 {
        Some(Seq::empty())
    } else if lines[0].len() == 0 {
        spec_parse_lines(lines.skip(1))
    } else {
        match spec_parse_line(lines[0]) {
            None => None,
            Some(e) => match spec_parse_lines(lines.skip(1)) {
                None => None,
                Some(es) => Some(seq![e] + es),
            },
        }
    }
}

/// What the whole text of a mount-information file yields.
pub open spec fn spec_parse_table(s: Seq<char>) -> Option<Seq<FsView>> {
    spec_parse_lines(spec_split(s, '\n'))
}

/// The first record mounted at `path`, in table order.
pub open spec fn spec_find_by_target(t: Seq<FsView>, path: Seq<char>) -> Option<FsView>
    decreases t.len(),
{
    if t.len() == 0 {
        None
    } else if t[0].target == path {
        Some(t[0])
    } else {
        spec_find_by_target(t.skip(1), path)
    }
}

/// The first record whose source field is `path`, in table order.
pub open spec fn spec_find_by_source(t: Seq<FsView>, path: Seq<char>) -> Option<FsView>
    decreases t.len(),
{
    if t.len() == 0 {
        None
    } else if t[0].source == path {
        Some(t[0])
    } else {
        spec_find_by_source(t.skip(1), path)
    }
}

/// A record no other record of the table is the parent of.
pub open spec fn spec_is_root(t: Seq<FsView>, e: FsView) -> bool {
    forall|k: int| 0 <= k < t.len() ==> (#[trigger] t[k]).id != e.parent_id
}

/// A malformed mount-information text, with the index of the offending line.
#[derive(Clone, Copy, Debug, PartialEq, Eq, Structural)]
pub struct TableParseError {
    pub line: usize,
}

/// An immutable, point-in-time parse of a mount-information file.
#[derive(Debug)]
pub struct Table {
    entries: Vec<FS>,
}

impl View for Table {
    type V = Seq<FsView>;

    closed spec fn view(&self) -> Seq<FsView> {
        self.entries.deep_view()
    }
}

/// Prepend already-parsed records to the outcome of parsing the rest.
pub open spec fn opt_prepend(pre: Seq<FsView>, rest: Option<Seq<FsView>>) -> Option<
    Seq<FsView>,
> {
    match rest {
        None => None,
        Some(es) => Some(pre + es),
    }
}

/// Does this field hold exactly the separator `-`?
fn is_dash(t: &String) -> (r: bool)
    ensures
        r == (t@ == dash()),
{
    if t.as_str().unicode_len() == 1 {
        if t.as_str().get_char(0) == '-' {
            proof {
                assert(t@ =~= dash());
            }
            true
        } else {
            false
        }
    } else {
        false
    }
}

/// Read a `major:minor` device field.
fn parse_dev(s: &str) -> (r: Option<(u32, u32)>)
    ensures
        r == spec_parse_dev(s@),
{
    let parts = split_chars(s, ':');
    proof {
        assert(parts.deep_view().len() == parts@.len());
    }
    if parts.len() != 2 {
        return None;
    }
    proof {
        assert(parts.deep_view()[0] == parts@[0]@);
        assert(parts.deep_view()[1] == parts@[1]@);
    }
    let maj = crate::text::parse_u32(parts[0].as_str());
    let min = crate::text::parse_u32(parts[1].as_str());
    match (maj, min) {
        (Some(a), Some(b)) => Some((a, b)),
        _ => None,
    }
}

/// Parse one nonempty line of a mount-information file.
fn parse_line(line: &str) -> (r: Option<FS>)
    ensures
        match r {
            Some(e) => spec_parse_line(line@) == Some(e@),
            None => spec_parse_line(line@) is None,
        },
{
    let fields = split_chars(line, ' ');
    let ghost f = fields.deep_view();
    proof {
        assert(f.len() == fields@.len());
        assert(forall|k: int| 0 <= k < f.len() ==> f[k] == fields@[k].deep_view());
    }
    if fields.len() < 7 {
        return None;
    }
    let mut j: usize = 6;
    while j < fields.len() && !is_dash(&fields[j])
        invariant
            6 <= j <= f.len(),
            f.len() == fields@.len(),
            f == fields.deep_view(),
            forall|m: int| 6 <= m < j ==> f[m] != dash(),
        decreases f.len() - j,
    {
        j = j + 1;
    }
    proof {
        f.skip(6).index_of_first_ensures(dash());
        assert(forall|k: int| 0 <= k < f.skip(6).len() ==> f.skip(6)[k] == f[k + 6]);
        if j == f.len() {
            // no separator anywhere
            match f.skip(6).index_of_first(dash()) {
                Some(idx) => {
                    assert(f.skip(6)[idx] == dash());
                    assert(f[idx + 6] == dash());
                    assert(false);
                },
                None => {},
            }
        } else {
            assert(f[j as int] == dash());
            match f.skip(6).index_of_first(dash()) {
                None => {
                    assert(!f.skip(6).contains(dash()));
                    assert(f.skip(6)[j - 6] == dash());
                    assert(f.skip(6).contains(dash()));
                    assert(false);
                },
                Some(idx) => {
                    if idx < j - 6 {
                        assert(f[idx + 6] == dash());
                        assert(false);
                    }
                    if idx > j - 6 {
                        assert(f.skip(6)[j - 6] == dash());
                        assert(false);
                    }
                    assert(idx == j - 6);
                },
            }
        }
    }
    if j == fields.len() {
        return None;
    }
    if fields.len() - j <= 2 {
        return None;
    }
    let id = match crate::text::parse_u32(fields[0].as_str()) {
        Some(v) => v,
        None => {
            return None;
        },
    };
    let parent_id = match crate::text::parse_u32(fields[1].as_str()) {
        Some(v) => v,
        None => {
            return None;
        },
    };
    let dev = match parse_dev(fields[2].as_str()) {
        Some(v) => v,
        None => {
            return None;
        },
    };
    let e = FS {
        id,
        parent_id,
        dev_major: dev.0,
        dev_minor: dev.1,
        root: unescape(fields[3].as_str()),
        target: unescape(fields[4].as_str()),
        fstype: fields[j + 1].clone(),
        source: unescape(fields[j + 2].as_str()),
    };
    Some(e)
}

impl Table {
    /// An empty table.
    pub fn new() -> (r: Table)
        ensures
            r@.len() == 0,
    {
        Table { entries: Vec::new() }
    }

    /// Parse the text of a mount-information file into a snapshot.
    pub fn from_text(s: &str) -> (r: Result<Table, TableParseError>)
        ensures
            match r {
                Ok(t) => spec_parse_table(s@) == Some(t@),
                Err(_) => spec_parse_table(s@) is None,
            },
    {
        let lines = split_chars(s, '\n');
        let ghost ld = lines.deep_view();
        let mut entries: Vec<FS> = Vec::new();
        let mut i: usize = 0;
        proof {
            assert(ld.skip(0) =~= ld);
            assert(entries.deep_view() + spec_parse_lines(ld).unwrap() =~= spec_parse_lines(
                ld,
            ).unwrap());
            assert(spec_parse_lines(ld) == opt_prepend(
                entries.deep_view(),
                spec_parse_lines(ld.skip(0)),
            ));
        }
        while i < lines.len()
            invariant
                i <= lines@.len(),
                ld == lines.deep_view(),
                ld == spec_split(s@, '\n'),
                ld.len() == lines@.len(),
                spec_parse_lines(ld) == opt_prepend(
                    entries.deep_view(),
                    spec_parse_lines(ld.skip(i as int)),
                ),
            decreases lines@.len() - i,
        {
            proof {
                assert(ld.skip(i as int)[0] == ld[i as int]);
                assert(ld.skip(i as int).skip(1) =~= ld.skip(i as int + 1));
                assert(ld[i as int] == lines@[i as int].deep_view());
            }
            let line = &lines[i];
            if line.as_str().unicode_len() == 0 {
                // an empty line yields nothing
            } else {
                match parse_line(line.as_str()) {
                    None => {
                        proof {
                            assert(ld.skip(i as int).len() > 0);
                            assert(ld.skip(i as int)[0].len() != 0);
                            assert(spec_parse_line(ld.skip(i as int)[0]) is None);
                            assert(spec_parse_lines(ld.skip(i as int)) is None);
                        }
                        return Err(TableParseError { line: i });
                    },
                    Some(e) => {
                        let ghost pre = entries.deep_view();
                        entries.push(e);
                        proof {
                            assert(entries.deep_view() =~~= pre.push(e@));
                            let rest = spec_parse_lines(ld.skip(i as int + 1));
                            if rest is Some {
                                assert(pre + (seq![e@] + rest.unwrap()) =~= pre.push(e@)
                                    + rest.unwrap());
                            }
                        }
                    },
                }
            }
            i = i + 1;
        }
        proof {
            assert(ld.skip(i as int) =~= Seq::<Seq<char>>::empty());
            assert(spec_parse_lines(ld.skip(i as int)) == Some(Seq::<FsView>::empty()));
            assert(entries.deep_view() + Seq::<FsView>::empty() =~= entries.deep_view());
        }
        Ok(Table { entries })
    }

    /// Drop every record, ready for a re-parse.
    pub fn clear(&mut self)
        ensures
            final(self)@.len() == 0,
    {
        self.entries = Vec::new();
    }

    /// Is the table empty?
    pub fn is_empty(&self) -> (r: bool)
        ensures
            r == (self@.len() == 0),
    {
        self.entries.len() == 0
    }

    /// How many records the table holds.
    pub fn len(&self) -> (r: usize)
        ensures
            r == self@.len(),
    {
        self.entries.len()
    }

    /// The first record mounted at `path`, scanning in table order.
    pub fn find_target(&self, path: &str) -> (r: Option<&FS>)
        ensures
            match r {
                Some(e) => spec_find_by_target(self@, path@) == Some(e@),
                None => spec_find_by_target(self@, path@) is None,
            },
    {
        let ghost t = self@;
        let mut i: usize = 0;
        proof {
            assert(t.skip(0) =~= t);
        }
        while i < self.entries.len()
            invariant
                i <= self.entries@.len(),
                t == self@,
                t.len() == self.entries@.len(),
                spec_find_by_target(t, path@) == spec_find_by_target(t.skip(i as int), path@),
            decreases self.entries@.len() - i,
        {
            proof {
                assert(t.skip(i as int)[0] == t[i as int]);
                assert(t.skip(i as int).skip(1) =~= t.skip(i as int + 1));
                assert(t[i as int] == self.entries@[i as int].deep_view());
            }
            let e = &self.entries[i];
            if str_eq(e.target.as_str(), path) {
                return Some(e);
            }
            i = i + 1;
        }
        proof {
            assert(t.skip(i as int) =~= Seq::<FsView>::empty());
        }
        None
    }

    /// The first record whose source field is `path`, scanning in table
    /// order.
    pub fn find_source(&self, path: &str) -> (r: Option<&FS>)
        ensures
            match r {
                Some(e) => spec_find_by_source(self@, path@) == Some(e@),
                None => spec_find_by_source(self@, path@) is None,
            },
    {
        let ghost t = self@;
        let mut i: usize = 0;
        proof {
            assert(t.skip(0) =~= t);
        }
        while i < self.entries.len()
            invariant
                i <= self.entries@.len(),
                t == self@,
                t.len() == self.entries@.len(),
                spec_find_by_source(t, path@) == spec_find_by_source(t.skip(i as int), path@),
            decreases self.entries@.len() - i,
        {
            proof {
                assert(t.skip(i as int)[0] == t[i as int]);
                assert(t.skip(i as int).skip(1) =~= t.skip(i as int + 1));
                assert(t[i as int] == self.entries@[i as int].deep_view());
            }
            let e = &self.entries[i];
            if str_eq(e.source.as_str(), path) {
                return Some(e);
            }
            i = i + 1;
        }
        proof {
            assert(t.skip(i as int) =~= Seq::<FsView>::empty());
        }
        None
    }

    /// Does any record carry this mount id?
    fn has_id(&self, id: u32) -> (r: bool)
        ensures
            r == exists|k: int| 0 <= k < self@.len() && (#[trigger] self@[k]).id == id,
    {
        let mut i: usize = 0;
        while i < self.entries.len()
            invariant
                i <= self.entries@.len(),
                self@.len() == self.entries@.len(),
                forall|k: int| 0 <= k < i ==> (#[trigger] self@[k]).id != id,
            decreases self.entries@.len() - i,
        {
            proof {
                assert(self@[i as int] == self.entries@[i as int].deep_view());
            }
            if self.entries[i].id == id {
                return true;
            }
            i = i + 1;
        }
        false
    }

    /// The first record that no other record is the parent of: the root
    /// of the mount tree, when the table has one.
    pub fn get_root_fs(&self) -> (r: Option<&FS>)
        ensures
            match r {
                Some(e) => exists|i: int|
                    0 <= i < self@.len() && #[trigger] self@[i] == e@ && spec_is_root(
                        self@,
                        self@[i],
                    ) && forall|k: int| 0 <= k < i ==> !spec_is_root(self@, #[trigger] self@[k]),
                None => forall|i: int|
                    0 <= i < self@.len() ==> !spec_is_root(self@, #[trigger] self@[i]),
            },
    {
        let mut i: usize = 0;
        while i < self.entries.len()
            invariant
                i <= self.entries@.len(),
                self@.len() == self.entries@.len(),
                forall|k: int| 0 <= k < i ==> !spec_is_root(self@, #[trigger] self@[k]),
            decreases self.entries@.len() - i,
        {
            proof {
                assert(self@[i as int] == self.entries@[i as int].deep_view());
            }
            let e = &self.entries[i];
            if !self.has_id(e.parent_id) {
                return Some(e);
            }
            proof {
                let w = choose|k: int|
                    0 <= k < self@.len() && (#[trigger] self@[k]).id == self@[i as int].parent_id;
                assert(!spec_is_root(self@, self@[i as int]));
            }
            i = i + 1;
        }
        None
    }
}

/// When the first record at `path` stands at index `i`, the lookup
/// resolves to it.
pub proof fn lemma_find_target_first(t: Seq<FsView>, path: Seq<char>, i: int)
    requires
        0 <= i < t.len(),
        t[i].target == path,
        forall|k: int| 0 <= k < i ==> (#[trigger] t[k]).target != path,
    ensures
        spec_find_by_target(t, path) == Some(t[i]),
    decreases i,
{
    if i == 0 {
    } else {
        assert(t[0].target != path);
        assert(t.skip(1)[i - 1] == t[i]);
        assert(forall|k: int| 0 <= k < i - 1 ==> #[trigger] t.skip(1)[k] == t[k + 1]);
        lemma_find_target_first(t.skip(1), path, i - 1);
    }
}

/// When the first record whose source is `path` stands at index `i`, the
/// lookup resolves to it.
pub proof fn lemma_find_source_first(t: Seq<FsView>, path: Seq<char>, i: int)
    requires
        0 <= i < t.len(),
        t[i].source == path,
        forall|k: int| 0 <= k < i ==> (#[trigger] t[k]).source != path,
    ensures
        spec_find_by_source(t, path) == Some(t[i]),
    decreases i,
{
    if i == 0 {
    } else {
        assert(t[0].source != path);
        assert(t.skip(1)[i - 1] == t[i]);
        assert(forall|k: int| 0 <= k < i - 1 ==> #[trigger] t.skip(1)[k] == t[k + 1]);
        lemma_find_source_first(t.skip(1), path, i - 1);
    }
}

/// Lookup symmetry: when a record's target and source are each unique in
/// the table, looking it up by target and by source resolves to the same
/// record, so in particular to the same device number and filesystem type.
pub proof fn lemma_lookup_symmetry(t: Seq<FsView>, i: int)
    requires
        0 <= i < t.len(),
        forall|k: int| 0 <= k < t.len() && k != i ==> (#[trigger] t[k]).source != t[i].source,
        forall|k: int| 0 <= k < t.len() && k != i ==> (#[trigger] t[k]).target != t[i].target,
    ensures
        spec_find_by_target(t, t[i].target) == Some(t[i]),
        spec_find_by_source(t, t[i].source) == Some(t[i]),
        spec_find_by_target(t, t[i].target).unwrap().dev_major == spec_find_by_source(
            t,
            t[i].source,
        ).unwrap().dev_major,
        spec_find_by_target(t, t[i].target).unwrap().dev_minor == spec_find_by_source(
            t,
            t[i].source,
        ).unwrap().dev_minor,
        spec_find_by_target(t, t[i].target).unwrap().fstype == spec_find_by_source(
            t,
            t[i].source,
        ).unwrap().fstype,
{
    lemma_find_target_first(t, t[i].target, i);
    lemma_find_source_first(t, t[i].source, i);
}

/// The mathematical value of a mount operation context.
pub ghost struct ContextV {
    pub fs: Option<FsView>,
    pub target: Option<Seq<char>>,
}

/// A scoped mount operation: "apply record `fs`, bound to `target`",
/// configured here and executed as a single privileged operation by the
/// unverified driver.
#[derive(Debug)]
pub struct Context {
    fs: Option<FS>,
    target: Option<String>,
}

impl View for Context {
    type V = ContextV;

    closed spec fn view(&self) -> ContextV {
        ContextV {
            fs: match self.fs {
                Some(e) => Some(e@),
                None => None,
            },
            target: match self.target {
                Some(t) => Some(t@),
                None => None,
            },
        }
    }
}

impl Context {
    /// A fresh, unconfigured context.
    pub fn new() -> (r: Context)
        ensures
            r@.fs is None,
            r@.target is None,
    {
        Context { fs: None, target: None }
    }

    /// Configure the record to replay.
    pub fn set_fs(&mut self, fs: &FS)
        ensures
            final(self)@.fs == Some(fs@),
            final(self)@.target == old(self)@.target,
    {
        self.fs = Some(fs.clone());
    }

    /// Configure the target path to mount at.
    pub fn set_target(&mut self, target: &str)
        ensures
            final(self)@.target == Some(target@),
            final(self)@.fs == old(self)@.fs,
    {
        self.target = Some(String::from_str(target));
    }

    /// The configured record.
    pub fn fs(&self) -> (r: Option<&FS>)
        ensures
            match r {
                Some(e) => self@.fs == Some(e@),
                None => self@.fs is None,
            },
    {
        match &self.fs {
            Some(e) => Some(e),
            None => None,
        }
    }

    /// The configured target path.
    pub fn target(&self) -> (r: Option<&String>)
        ensures
            match r {
                Some(t) => self@.target == Some(t@),
                None => self@.target is None,
            },
    {
        match &self.target {
            Some(t) => Some(t),
            None => None,
        }
    }
}

} // verus!
