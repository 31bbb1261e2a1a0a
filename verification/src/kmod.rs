//! Kernel modules: the list of loaded modules (`/proc/modules`) and the
//! alias table (`modules.alias`) that maps device aliases to modules.

use vstd::prelude::*;
use crate::sysfs::{parse_entries, SysfsEntryIter, SysfsEntryParsable};
use crate::text::{
    chars_of, has_prefix, lemma_line_len_append, lemma_line_len_bounds, line_end, line_len, parse_usize,
    parse_usize_spec, slice_chars, split_chars, split_on, starts_with, string_of, trim,
    trim_chars,
};

verus! {

/// What a line of `/proc/modules` says of a module.
pub ghost struct ModuleInfo {
    pub name: Seq<char>,
    pub size: usize,
}

/// A loaded kernel module, as `/proc/modules` lists it.
#[derive(Debug)]
pub struct ModuleEntry {
    pub name: String,
    pub size: usize,
}

impl View for ModuleEntry {
    type V = ModuleInfo;

    open spec fn view(&self) -> ModuleInfo {
        ModuleInfo { name: self.name@, size: self.size }
    }
}

/// A line of `/proc/modules` ("name size instances dependencies state
/// offset") describes a module when it has at least four space-separated
/// fields; a size that is not a number reads as 0.
pub open spec fn module_line(line: Seq<char>) -> Option<ModuleInfo> {
    let parts = split_on(line, ' ');
    if parts.len() < 4 {
        None
    } else {
        Some(
            ModuleInfo {
                name: parts[0],
                size: match parse_usize_spec(parts[1]) {
                    Some(v) => v,
                    None => 0,
                },
            },
        )
    }
}

impl SysfsEntryParsable<ModuleEntry> for ModuleEntry {
    open spec fn spec_parse(line: Seq<char>) -> Option<ModuleInfo> {
        module_line(line)
    }

    fn parse(line: &str) -> (r: Option<ModuleEntry>) {
        let chars = chars_of(line);
        let parts = split_chars(&chars, ' ');
        if parts.len() < 4 {
            return None;
        }
        assert(parts@[0]@ == split_on(line@, ' ')[0]);
        assert(parts@[1]@ == split_on(line@, ' ')[1]);
        let size = match parse_usize(&parts[1]) {
            Some(v) => v,
            None => 0,
        };
        Some(ModuleEntry { name: string_of(parts[0].as_slice()), size })
    }
}

/// The modules that the text of `/proc/modules` lists.
pub open spec fn modules_in(data: Seq<char>) -> Seq<ModuleInfo> {
    parse_entries::<ModuleEntry, ModuleEntry>(data)
}

/// Iterates over the modules that `data`, the text of `/proc/modules`, lists.
pub fn modules_from_string(data: &str) -> (it: SysfsEntryIter<ModuleEntry>)
    ensures
        it.wf(),
        it.remaining() == modules_in(data@),
{
    SysfsEntryIter::from_string(data)
}

/// Whether `proc_modules`, the text of `/proc/modules`, lists a module
/// named `module`.
pub fn module_is_loaded(proc_modules: &str, module: &str) -> (r: bool)
    ensures
        r == exists|i: int|
            0 <= i < modules_in(proc_modules@).len() && (#[trigger] modules_in(
                proc_modules@,
            )[i]).name == module@,
{
    let ghost all = modules_in(proc_modules@);
    let mut it = modules_from_string(proc_modules);
    let want = chars_of(module);
    let ghost mut seen: int = 0;
    loop
        invariant
            it.wf(),
            0 <= seen <= all.len(),
            it.remaining() == all.skip(seen),
            all == modules_in(proc_modules@),
            want@ == module@,
            forall|k: int| 0 <= k < seen ==> (#[trigger] all[k]).name != module@,
        decreases it.remaining().len(),
    {
        match it.next() {
            None => {
                assert(all.skip(seen).len() == 0);
                return false;
            },
            Some(e) => {
                assert(all.skip(seen)[0] == all[seen]);
                let name = chars_of(e.name.as_str());
                if crate::text::chars_eq(name.as_slice(), want.as_slice()) {
                    return true;
                }
                proof {
                    assert(all.skip(seen).drop_first() =~= all.skip(seen + 1));
                    seen = seen + 1;
                }
            },
        }
    }
}

/// Matching of a device alias against a `modules.alias` pattern, one name
/// character at a time. `pending` is the character that ends the wildcard
/// being matched, if one is. A `'*'` takes at least one character and stops
/// at the first occurrence of the character that follows it in the pattern;
/// a `'*'` at the end of the pattern takes everything. Name characters left
/// once the pattern is used up are accepted, as is a name that ends first.
pub open spec fn wild_match(pattern: Seq<char>, name: Seq<char>, pending: Option<char>) -> bool
    decreases name.len(),
{
    if name.len() == 0 {
        true
    } else {
        let v = name[0];
        match pending {
            Some(next) => wild_match(
                pattern,
                name.drop_first(),
                if v == next {
                    None
                } else {
                    Some(next)
                },
            ),
            None => if pattern.len() == 0 {
                wild_match(pattern, name.drop_first(), None)
            } else if pattern[0] == '*' {
                if pattern.len() == 1 {
                    true
                } else {
                    wild_match(pattern.skip(2), name.drop_first(), Some(pattern[1]))
                }
            } else if pattern[0] != v {
                false
            } else {
                wild_match(pattern.drop_first(), name.drop_first(), None)
            },
        }
    }
}

/// A pattern that is a lone `'*'` matches every name.
pub proof fn lemma_lone_wildcard_matches_all(name: Seq<char>)
    ensures
        wild_match(seq!['*'], name, None),
{
}

/// A pattern without `'*'` matches a name exactly when the two agree on
/// every position that both have.
pub proof fn lemma_plain_pattern_matches_common_prefix(pattern: Seq<char>, name: Seq<char>)
    requires
        forall|i: int| 0 <= i < pattern.len() ==> pattern[i] != '*',
    ensures
        wild_match(pattern, name, None) <==> (forall|i: int|
            0 <= i < pattern.len() && i < name.len() ==> pattern[i] == name[i]),
    decreases name.len(),
{
    if name.len() > 0 {
        if pattern.len() == 0 {
            lemma_plain_pattern_matches_common_prefix(pattern, name.drop_first());
        } else if pattern[0] == name[0] {
            let p = pattern.drop_first();
            let n = name.drop_first();
            lemma_plain_pattern_matches_common_prefix(p, n);
            if wild_match(pattern, name, None) {
                assert forall|i: int|
                    0 <= i < pattern.len() && i < name.len() implies pattern[i] == name[i] by {
                    if i > 0 {
                        assert(p[i - 1] == n[i - 1]);
                    }
                }
            } else {
                let k = choose|k: int| 0 <= k < p.len() && k < n.len() && p[k] != n[k];
                assert(pattern[k + 1] != name[k + 1]);
            }
        }
    }
}

/// An entry of `modules.alias`: a device alias pattern and its module.
pub struct AliasMapEntry {
    pub pattern: String,
    pub module: String,
}

impl AliasMapEntry {
    /// Whether `name` matches this entry's pattern (see `wild_match`).
    pub fn matches(&self, name: &str) -> (r: bool)
        ensures
            r == wild_match(self.pattern@, name@, None),
    {
        let pat = chars_of(self.pattern.as_str());
        let nm = chars_of(name);
        let mut pi: usize = 0;
        let mut pending: Option<char> = None;
        let mut i: usize = 0;
        assert(pat@.skip(0) =~= pat@);
        assert(nm@.skip(0) =~= nm@);
        while i < nm.len()
            invariant
                pi <= pat.len(),
                i <= nm.len(),
                pat@ == self.pattern@,
                nm@ == name@,
                wild_match(pat@, nm@, None) == wild_match(
                    pat@.skip(pi as int),
                    nm@.skip(i as int),
                    pending,
                ),
            decreases nm.len() - i,
        {
            let v = nm[i];
            let ghost p = pat@.skip(pi as int);
            let ghost n = nm@.skip(i as int);
            assert(n.drop_first() =~= nm@.skip(i + 1));
            assert(n[0] == v);
            match pending {
                Some(next) => {
                    if v == next {
                        pending = None;
                    }
                },
                None => {
                    if pi < pat.len() {
                        let c = pat[pi];
                        assert(p[0] == c);
                        pi = pi + 1;
                        if c == '*' {
                            if pi < pat.len() {
                                assert(p[1] == pat@[pi as int]);
                                assert(p.skip(2) =~= pat@.skip(pi + 1));
                                pending = Some(pat[pi]);
                                pi = pi + 1;
                            } else {
                                return true;
                            }
                        } else if c != v {
                            return false;
                        } else {
                            assert(p.drop_first() =~= pat@.skip(pi as int));
                        }
                    } else {
                        assert(p =~= pat@.skip(pi as int));
                    }
                },
            }
            i = i + 1;
        }
        true
    }
}

/// What the entries of an alias table are: (pattern, module) pairs.
pub open spec fn entry_views(entries: Seq<AliasMapEntry>) -> Seq<(Seq<char>, Seq<char>)> {
    entries.map_values(|e: AliasMapEntry| (e.pattern@, e.module@))
}

/// The module that the first entry whose pattern matches `name` names.
pub open spec fn resolve_in(entries: Seq<(Seq<char>, Seq<char>)>, name: Seq<char>) -> Option<
    Seq<char>,
>
    decreases entries.len(),
{
    if entries.len() == 0 {
        None
    } else if wild_match(entries[0].0, name, None) {
        Some(entries[0].1)
    } else {
        resolve_in(entries.drop_first(), name)
    }
}

/// The (pattern, module) pair that a line of `modules.alias` holds: a line
/// that starts with "alias" and has, once trimmed, at least three
/// space-separated fields gives its second and third fields.
pub open spec fn alias_line(line: Seq<char>) -> Option<(Seq<char>, Seq<char>)> {
    if has_prefix(line, seq!['a', 'l', 'i', 'a', 's']) {
        let parts = split_on(trim(line), ' ');
        if parts.len() >= 3 {
            Some((parts[1], parts[2]))
        } else {
            None
        }
    } else {
        None
    }
}

/// The entries that the text of a `modules.alias` file gives, in order.
pub open spec fn alias_entries(s: Seq<char>) -> Seq<(Seq<char>, Seq<char>)>
    decreases s.len(),
{
    if s.len() == 0 {
        Seq::empty()
    } else {
        let n = line_len(s);
        proof {
            lemma_line_len_bounds(s);
        }
        match alias_line(s.take(n as int)) {
            Some(e) => seq![e] + alias_entries(s.skip(n as int)),
            None => alias_entries(s.skip(n as int)),
        }
    }
}

/// The lines of an alias file are read on their own: two texts, the first
/// ending its last line, give the entries of the first, then those of the
/// second.
pub proof fn lemma_alias_entries_append(a: Seq<char>, b: Seq<char>)
    requires
        a.len() == 0 || a.last() == '\n',
    ensures
        alias_entries(a + b) == alias_entries(a) + alias_entries(b),
    decreases a.len(),
{
    if a.len() == 0 {
        assert(a + b =~= b);
    } else {
        lemma_line_len_append(a, b);
        let n = line_len(a);
        lemma_line_len_bounds(a);
        assert((a + b).take(n as int) =~= a.take(n as int));
        assert((a + b).skip(n as int) =~= a.skip(n as int) + b);
        let rest = a.skip(n as int);
        assert(rest.len() == 0 || rest.last() == a.last());
        lemma_alias_entries_append(rest, b);
        match alias_line(a.take(n as int)) {
            Some(e) => {
                assert(seq![e] + (alias_entries(rest) + alias_entries(b)) =~= (seq![e]
                    + alias_entries(rest)) + alias_entries(b));
            },
            None => {},
        }
    }
}

/// Entries earlier in the table take precedence: a name resolves by the
/// first table when an entry there matches it, else by the second.
pub proof fn lemma_resolve_in_append(x: Seq<(Seq<char>, Seq<char>)>, y: Seq<(Seq<char>, Seq<char>)>, name: Seq<char>)
    ensures
        resolve_in(x + y, name) == match resolve_in(x, name) {
            Some(m) => Some(m),
            None => resolve_in(y, name),
        },
    decreases x.len(),
{
    if x.len() == 0 {
        assert(x + y =~= y);
    } else {
        assert((x + y)[0] == x[0]);
        assert((x + y).drop_first() =~= x.drop_first() + y);
        lemma_resolve_in_append(x.drop_first(), y, name);
    }
}

/// An alias file made of two parts, the first ending its last line,
/// resolves a name by the first part when a line there matches it, else by
/// the second.
pub proof fn lemma_alias_file_precedence(a: Seq<char>, b: Seq<char>, name: Seq<char>)
    requires
        a.len() == 0 || a.last() == '\n',
    ensures
        resolve_in(alias_entries(a + b), name) == match resolve_in(alias_entries(a), name) {
            Some(m) => Some(m),
            None => resolve_in(alias_entries(b), name),
        },
{
    lemma_alias_entries_append(a, b);
    lemma_resolve_in_append(alias_entries(a), alias_entries(b), name);
}

/// The alias table of the kernel modules.
pub struct AliasMap {
    entries: Vec<AliasMapEntry>,
}

impl View for AliasMap {
    type V = Seq<(Seq<char>, Seq<char>)>;

    closed spec fn view(&self) -> Seq<(Seq<char>, Seq<char>)> {
        entry_views(self.entries@)
    }
}

impl AliasMap {
    /// A table with no entries.
    pub fn new() -> (m: AliasMap)
        ensures
            m@ == Seq::<(Seq<char>, Seq<char>)>::empty(),
    {
        let m = AliasMap { entries: Vec::new() };
        assert(m@ =~= Seq::<(Seq<char>, Seq<char>)>::empty());
        m
    }

    /// The module of the first entry whose pattern matches `name`.
    pub fn resolve(&self, name: &str) -> (r: Option<&str>)
        ensures
            match r {
                Some(m) => resolve_in(self@, name@) == Some(m@),
                None => resolve_in(self@, name@) is None,
            },
    {
        let mut i: usize = 0;
        assert(self@.skip(0) =~= self@);
        while i < self.entries.len()
            invariant
                i <= self.entries.len(),
                resolve_in(self@, name@) == resolve_in(self@.skip(i as int), name@),
                self@ == entry_views(self.entries@),
            decreases self.entries.len() - i,
        {
            let ghost rest = self@.skip(i as int);
            assert(rest[0] == (self.entries@[i as int].pattern@, self.entries@[i as int].module@));
            if self.entries[i].matches(name) {
                return Some(self.entries[i].module.as_str());
            }
            assert(rest.drop_first() =~= self@.skip(i + 1));
            i = i + 1;
        }
        assert(self@.skip(i as int) =~= Seq::<(Seq<char>, Seq<char>)>::empty());
        None
    }

    /// The alias table that `data`, the text of a `modules.alias` file, holds.
    pub fn from_reader(data: &str) -> (m: AliasMap)
        ensures
            m@ == alias_entries(data@),
    {
        let chars = chars_of(data);
        let prefix = chars_of("alias");
        proof {
            reveal_strlit("alias");
        }
        assert(prefix@ =~= seq!['a', 'l', 'i', 'a', 's']);
        let mut map = AliasMap { entries: Vec::new() };
        let mut pos: usize = 0;
        assert(chars@.skip(0) =~= chars@);
        assert(map@ =~= Seq::<(Seq<char>, Seq<char>)>::empty());
        while pos < chars.len()
            invariant
                pos <= chars.len(),
                chars@ == data@,
                prefix@ == seq!['a', 'l', 'i', 'a', 's'],
                alias_entries(data@) == map@ + alias_entries(chars@.skip(pos as int)),
            decreases chars.len() - pos,
        {
            let end = line_end(&chars, pos);
            let ghost s = chars@.skip(pos as int);
            let ghost n = (end - pos) as int;
            proof {
                lemma_line_len_bounds(s);
            }
            let line = slice_chars(&chars, pos, end);
            assert(line@ =~= s.take(n));
            assert(s.skip(n) =~= chars@.skip(end as int));
            let ghost before = map@;
            if starts_with(&line, &prefix) {
                let trimmed = trim_chars(&line);
                let parts = split_chars(&trimmed, ' ');
                if parts.len() >= 3 {
                    let entry = AliasMapEntry {
                        pattern: string_of(parts[1].as_slice()),
                        module: string_of(parts[2].as_slice()),
                    };
                    map.entries.push(entry);
                    assert(map@ =~= before.push(alias_line(s.take(n))->0));
                }
            }
            assert(alias_entries(s) == match alias_line(s.take(n)) {
                Some(e) => seq![e] + alias_entries(s.skip(n)),
                None => alias_entries(s.skip(n)),
            });
            pos = end;
            assert(before + alias_entries(s) =~= map@ + alias_entries(chars@.skip(pos as int)));
        }
        assert(chars@.skip(pos as int) =~= Seq::<char>::empty());
        assert(map@ + Seq::<(Seq<char>, Seq<char>)>::empty() =~= map@);
        map
    }

    /// The alias table that the text `s` holds; reading from a string
    /// cannot fail.
    pub fn from_string(s: &str) -> (r: Result<AliasMap, ()>)
        ensures
            r matches Ok(m) && m@ == alias_entries(s@),
    {
        Ok(Self::from_reader(s))
    }

    /// Number of entries.
    pub fn len(&self) -> (n: usize)
        ensures
            n == self@.len(),
    {
        self.entries.len()
    }
}

} // verus!
