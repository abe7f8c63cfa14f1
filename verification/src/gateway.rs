//! Symbol resolution over the codex notation tables: dotted names are
//! split into module prefix, base symbol and modifiers, looked up, and the
//! best variant chosen; a substring search runs over a whole table.

use vstd::prelude::*;
use vstd::string::{StrSliceExecFns, StringExecFns};
use crate::docstore::{clone_string, strs_view};
use crate::strutil::{spec_contains, str_contains, str_eq};
use crate::tasks::lemma_filter_push;

verus! {

/// The notation tables this gateway can look in.
#[derive(Debug, Clone, Copy, PartialEq, Eq, Structural)]
pub enum ModuleHandle {
    Sym,
    Emoji,
    Root,
}

/// One definition from a table, as the library models it: a single
/// character, a set of modifier-keyed variants, or a nested module (which
/// resolution does not descend into).
#[derive(Debug)]
pub enum SymbolDef {
    Single(char),
    Multi(Vec<(String, char)>),
    Nested,
}

/// The ghost shape of a definition.
pub ghost enum DefView {
    Single(char),
    Multi(Seq<(Seq<char>, char)>),
    Nested,
}

/// The ghost shape of one concrete definition.
pub open spec fn def_view(d: SymbolDef) -> DefView {
    match d {
        SymbolDef::Single(c) => DefView::Single(c),
        SymbolDef::Multi(v) => DefView::Multi(
            v@.map_values(|p: (String, char)| (p.0@, p.1)),
        ),
        SymbolDef::Nested => DefView::Nested,
    }
}

/// What a table holds: its keys and definitions in table order. The tables
/// are fixed data compiled into the codex crate, so this is a pure
/// function of the handle.
pub uninterp spec fn handle_entries(h: ModuleHandle) -> Seq<(Seq<char>, DefView)>;

/// The first definition under `key`, scanning in table order.
pub open spec fn spec_lookup(entries: Seq<(Seq<char>, DefView)>, key: Seq<char>) -> Option<DefView>
    decreases entries.len(),
{
    if entries.len() == 0 {
        None
    } else if entries[0].0 == key {
        Some(entries[0].1)
    } else {
        spec_lookup(entries.drop_first(), key)
    }
}

/// Relies on codex's `Module::get`: a binary search over the table, which
/// the crate keeps sorted by key with unique keys, so it finds exactly the
/// entry whose key equals `name`. The binding's definition is converted
/// arm for arm into the library's model.
#[verifier::external_body]
fn lookup_in(h: &ModuleHandle, name: &str) -> (r: Option<SymbolDef>)
    ensures
        match r {
            Some(d) => spec_lookup(handle_entries(*h), name@) == Some(def_view(d)),
            None => spec_lookup(handle_entries(*h), name@) is None,
        },
{
    let m = match h {
        ModuleHandle::Sym => codex::SYM,
        ModuleHandle::Emoji => codex::EMOJI,
        ModuleHandle::Root => codex::ROOT,
    };
    m.get(name).map(|b| match b.def {
        codex::Def::Symbol(codex::Symbol::Single(c)) => SymbolDef::Single(c),
        codex::Def::Symbol(codex::Symbol::Multi(a)) => SymbolDef::Multi(
            a.iter().map(|(k, c)| ((*k).to_owned(), *c)).collect(),
        ),
        codex::Def::Module(_) => SymbolDef::Nested,
    })
}

/// The ghost shape of a listed table.
pub open spec fn entries_view(v: Seq<(String, SymbolDef)>) -> Seq<(Seq<char>, DefView)> {
    v.map_values(|p: (String, SymbolDef)| (p.0@, def_view(p.1)))
}

/// Relies on codex's `Module::iter`: every entry of the table in table
/// order, each converted arm for arm into the library's model.
#[verifier::external_body]
fn entries_of(h: &ModuleHandle) -> (r: Vec<(String, SymbolDef)>)
    ensures
        entries_view(r@) == handle_entries(*h),
{
    let m = match h {
        ModuleHandle::Sym => codex::SYM,
        ModuleHandle::Emoji => codex::EMOJI,
        ModuleHandle::Root => codex::ROOT,
    };
    m.iter().map(|(k, b)| (k.to_owned(), match b.def {
        codex::Def::Symbol(codex::Symbol::Single(c)) => SymbolDef::Single(c),
        codex::Def::Symbol(codex::Symbol::Multi(a)) => SymbolDef::Multi(
            a.iter().map(|(k2, c)| ((*k2).to_owned(), *c)).collect(),
        ),
        codex::Def::Module(_) => SymbolDef::Nested,
    })).collect()
}

/// What `str::to_lowercase` turns a string into; a pure function of the
/// characters alone.
pub uninterp spec fn lower_of(s: Seq<char>) -> Seq<char>;

/// Relies on `str::to_lowercase`: the Unicode lowercase mapping of the
/// text, depending on its characters alone.
#[verifier::external_body]
fn to_lowercase_str(s: &str) -> (r: String)
    ensures
        r@ == lower_of(s@),
{
    s.to_lowercase()
}

/// The index of the first dot, or the length when there is none.
pub open spec fn first_dot(s: Seq<char>) -> int
    decreases s.len(),
{
    if s.len() == 0 {
        0
    } else if s[0] == '.' {
        0
    } else {
        1 + first_dot(s.drop_first())
    }
}

/// Pins `first_dot` when the first dot's position is known.
proof fn lemma_first_dot_at(s: Seq<char>, k: int)
    requires
        0 <= k <= s.len(),
        forall|j: int| 0 <= j < k ==> s[j] != '.',
        k < s.len() ==> s[k] == '.',
    ensures
        first_dot(s) == k,
    decreases k,
{
    if k > 0 {
        assert(s[0] != '.');
        assert forall|j: int| 0 <= j < k - 1 implies s.drop_first()[j] != '.' by {
            assert(s.drop_first()[j] == s[j + 1]);
        }
        if k - 1 < s.drop_first().len() {
            assert(s.drop_first()[k - 1] == s[k as int]);
        }
        lemma_first_dot_at(s.drop_first(), k - 1);
    } else {
        if s.len() > 0 {
            assert(s[0] == '.');
        }
    }
}

/// The dot-separated pieces of `s`, in order; always at least one piece.
pub open spec fn split_dots(s: Seq<char>) -> Seq<Seq<char>>
    decreases s.len(),
{
    let fd = first_dot(s);
    if 0 <= fd < s.len() {
        seq![s.take(fd)] + split_dots(s.skip(fd + 1))
    } else {
        seq![s]
    }
}

/// The ghost shape of a list of borrowed strings.
pub open spec fn slices_view(v: Seq<&str>) -> Seq<Seq<char>> {
    v.map_values(|x: &str| x@)
}

/// Viewing commutes with appending one piece.
proof fn lemma_slices_view_push(v: Seq<&str>, x: &str)
    ensures
        slices_view(v.push(x)) == slices_view(v).push(x@),
{
    assert(slices_view(v.push(x)) =~= slices_view(v).push(x@));
}

/// Splits `s` at every dot, keeping empty pieces, exactly as
/// [`split_dots`] describes.
#[verifier::loop_isolation(false)]
pub fn split_segments<'a>(s: &'a str) -> (r: Vec<&'a str>)
    ensures
        slices_view(r@) == split_dots(s@),
{
    let n = s.unicode_len();
    let mut segs: Vec<&'a str> = Vec::new();
    let mut start: usize = 0;
    let mut i: usize = 0;
    proof {
        assert(s@.skip(0) =~= s@);
        assert(slices_view(segs@) + split_dots(s@) =~= split_dots(s@));
    }
    while i < n
        invariant
            start <= i <= n,
            n == s@.len(),
            split_dots(s@) == slices_view(segs@) + split_dots(s@.skip(start as int)),
            forall|j: int| start <= j < i ==> s@[j] != '.',
        decreases n - i,
    {
        if s.get_char(i) == '.' {
            let seg = s.substring_char(start, i);
            proof {
                let suf = s@.skip(start as int);
                assert forall|j: int| 0 <= j < i - start implies suf[j] != '.' by {
                    assert(suf[j] == s@[start + j]);
                }
                assert(suf[i - start] == s@[i as int]);
                lemma_first_dot_at(suf, i - start);
                assert(suf.take(i - start) =~= s@.subrange(start as int, i as int));
                assert(suf.skip(i - start + 1) =~= s@.skip(i + 1));
                lemma_slices_view_push(segs@, seg);
                assert(split_dots(s@) =~= slices_view(segs@.push(seg)) + split_dots(
                    s@.skip(i + 1),
                ));
            }
            segs.push(seg);
            start = i + 1;
        }
        i = i + 1;
    }
    let last = s.substring_char(start, n);
    proof {
        let suf = s@.skip(start as int);
        assert forall|j: int| 0 <= j < suf.len() implies suf[j] != '.' by {
            assert(suf[j] == s@[start + j]);
        }
        lemma_first_dot_at(suf, suf.len() as int);
        assert(suf =~= s@.subrange(start as int, n as int));
        lemma_slices_view_push(segs@, last);
        assert(split_dots(s@) =~= slices_view(segs@.push(last)));
    }
    segs.push(last);
    segs
}

/// Splits a dotted name into its module prefix, base symbol and modifier
/// list. Succeeds exactly when the name holds at least one dot, taking the
/// first piece as prefix and the second as base.
pub fn parse_name<'a>(name: &'a str) -> (r: Option<(&'a str, &'a str, Vec<&'a str>)>)
    ensures
        ({
            let parts = split_dots(name@);
            &&& (r is Some <==> parts.len() >= 2)
            &&& (r matches Some((p, b, mods)) ==> p@ == parts[0] && b@ == parts[1] && slices_view(
                mods@,
            ) == parts.skip(2))
        }),
{
    let segs = split_segments(name);
    if segs.len() < 2 {
        return None;
    }
    let mut mods: Vec<&'a str> = Vec::new();
    let mut i: usize = 2;
    let ghost parts = split_dots(name@);
    while i < segs.len()
        invariant
            2 <= i <= segs@.len(),
            slices_view(segs@) == parts,
            parts.len() == segs@.len(),
            mods@.len() == i - 2,
            forall|j: int| 0 <= j < i - 2 ==> mods@[j]@ == parts[j + 2],
        decreases segs@.len() - i,
    {
        mods.push(segs[i]);
        proof {
            assert(mods@.last()@ == slices_view(segs@)[i as int]);
        }
        i = i + 1;
    }
    proof {
        assert(slices_view(mods@) =~= parts.skip(2));
        assert(segs@[0]@ == parts[0] && segs@[1]@ == parts[1]);
    }
    Some((segs[0], segs[1], mods))
}

/// The table a prefix names: `sym` and `emoji` for the two top-level
/// tables, `root` for the table that contains them.
pub open spec fn spec_prefix_handle(p: Seq<char>) -> Option<ModuleHandle> {
    if p == "sym"@ {
        Some(ModuleHandle::Sym)
    } else if p == "emoji"@ {
        Some(ModuleHandle::Emoji)
    } else if p == "root"@ {
        Some(ModuleHandle::Root)
    } else {
        None
    }
}

/// Maps a name's prefix to its table and canonical module name; `None` for
/// an unknown prefix.
pub fn module_for(prefix: &str) -> (r: Option<(&'static str, ModuleHandle)>)
    ensures
        ({
            match spec_prefix_handle(prefix@) {
                Some(h) => r matches Some((nm, rh)) && rh == h && nm@ == prefix@,
                None => r is None,
            }
        }),
{
    if str_eq(prefix, "sym") {
        Some(("sym", ModuleHandle::Sym))
    } else if str_eq(prefix, "emoji") {
        Some(("emoji", ModuleHandle::Emoji))
    } else if str_eq(prefix, "root") {
        Some(("root", ModuleHandle::Root))
    } else {
        None
    }
}

/// The modifier pieces of a variant key: its dot-separated parts with the
/// empty ones dropped.
pub open spec fn spec_key_parts(key: Seq<char>) -> Seq<Seq<char>> {
    split_dots(key).filter(|p: Seq<char>| p.len() > 0)
}

/// Every requested modifier occurs among `have`.
pub open spec fn spec_all_in(req: Seq<Seq<char>>, have: Seq<Seq<char>>) -> bool {
    forall|i: int| 0 <= i < req.len() ==> have.contains(req[i])
}

/// How many extra modifiers a variant carries beyond the requested ones.
pub open spec fn spec_extras(req: Seq<Seq<char>>, key: Seq<char>) -> nat {
    if spec_key_parts(key).len() >= req.len() {
        (spec_key_parts(key).len() - req.len()) as nat
    } else {
        0
    }
}

/// The running best pick over the first `k` variants: the earliest variant
/// containing every requested modifier with strictly fewest extras, as
/// (index, extras).
pub open spec fn spec_pick_fold(req: Seq<Seq<char>>, alts: Seq<(Seq<char>, char)>, k: int) -> Option<
    (int, nat),
>
    decreases k,
{
    if k <= 0 {
        None
    } else {
        let prev = spec_pick_fold(req, alts, k - 1);
        if spec_all_in(req, spec_key_parts(alts[k - 1].0)) {
            let e = spec_extras(req, alts[k - 1].0);
            match prev {
                None => Some((k - 1, e)),
                Some((pi, pe)) => if e < pe {
                    Some((k - 1, e))
                } else {
                    prev
                },
            }
        } else {
            prev
        }
    }
}

/// What variant selection returns: the picked key and character, falling
/// back to the first variant, and to an empty key with the replacement
/// character when there are no variants at all.
pub open spec fn spec_pick_result(req: Seq<Seq<char>>, alts: Seq<(Seq<char>, char)>) -> (
    Seq<char>,
    char,
) {
    match spec_pick_fold(req, alts, alts.len() as int) {
        Some((i, e)) => (alts[i].0, alts[i].1),
        None => if alts.len() > 0 {
            (alts[0].0, alts[0].1)
        } else {
            (Seq::<char>::empty(), '\u{FFFD}')
        },
    }
}

/// Tests whether `v` holds a piece equal to `s`.
fn contains_piece(v: &Vec<&str>, s: &str) -> (r: bool)
    ensures
        r == slices_view(v@).contains(s@),
{
    let mut i: usize = 0;
    while i < v.len()
        invariant
            i <= v@.len(),
            forall|j: int| 0 <= j < i ==> v@[j]@ != s@,
        decreases v@.len() - i,
    {
        if str_eq(v[i], s) {
            proof {
                assert(slices_view(v@)[i as int] == s@);
            }
            return true;
        }
        i = i + 1;
    }
    proof {
        assert forall|j: int| 0 <= j < slices_view(v@).len() implies slices_view(v@)[j] != s@ by {}
    }
    false
}

/// The non-empty dot-separated pieces of `key`.
#[verifier::loop_isolation(false)]
fn key_parts<'a>(key: &'a str) -> (r: Vec<&'a str>)
    ensures
        slices_view(r@) == spec_key_parts(key@),
{
    let raw = split_segments(key);
    let ghost all = split_dots(key@);
    let mut out: Vec<&'a str> = Vec::new();
    let mut i: usize = 0;
    while i < raw.len()
        invariant
            i <= raw@.len(),
            slices_view(raw@) == all,
            all.len() == raw@.len(),
            slices_view(out@) == all.subrange(0, i as int).filter(
                (|p: Seq<char>| p.len() > 0),
            ),
        decreases raw@.len() - i,
    {
        proof {
            assert(all.subrange(0, i + 1) =~= all.subrange(0, i as int).push(all[i as int]));
            lemma_filter_push(all.subrange(0, i as int), all[i as int], (|p: Seq<char>| p.len()
                > 0));
        }
        if raw[i].unicode_len() > 0 {
            proof {
                assert(slices_view(raw@)[i as int] == raw@[i as int]@);
                lemma_slices_view_push(out@, raw@[i as int]);
            }
            out.push(raw[i]);
        }
        i = i + 1;
    }
    proof {
        assert(all.subrange(0, all.len() as int) =~= all);
    }
    out
}

/// Every requested modifier occurs among `have`.
fn all_in(req: &Vec<&str>, have: &Vec<&str>) -> (r: bool)
    ensures
        r == spec_all_in(slices_view(req@), slices_view(have@)),
{
    let mut i: usize = 0;
    while i < req.len()
        invariant
            i <= req@.len(),
            forall|j: int| 0 <= j < i ==> slices_view(have@).contains(slices_view(req@)[j]),
        decreases req@.len() - i,
    {
        if !contains_piece(have, req[i]) {
            proof {
                assert(slices_view(req@)[i as int] == req@[i as int]@);
            }
            return false;
        }
        proof {
            assert(slices_view(req@)[i as int] == req@[i as int]@);
        }
        i = i + 1;
    }
    true
}

/// Chooses the variant for the requested modifiers: the earliest one
/// containing them all with strictly fewest extras, else the first
/// variant, else the empty key with the replacement character.
#[verifier::loop_isolation(false)]
fn pick_variant(requested: &Vec<&str>, alts: &Vec<(String, char)>) -> (r: (String, char))
    ensures
        r.0@ == spec_pick_result(
            slices_view(requested@),
            alts@.map_values(|p: (String, char)| (p.0@, p.1)),
        ).0,
        r.1 == spec_pick_result(
            slices_view(requested@),
            alts@.map_values(|p: (String, char)| (p.0@, p.1)),
        ).1,
{
    let ghost req = slices_view(requested@);
    let ghost av = alts@.map_values(|p: (String, char)| (p.0@, p.1));
    let mut best: Option<(usize, usize)> = None;
    let mut i: usize = 0;
    while i < alts.len()
        invariant
            i <= alts@.len(),
            av.len() == alts@.len(),
            match best {
                None => spec_pick_fold(req, av, i as int) is None,
                Some((bi, be)) => spec_pick_fold(req, av, i as int) == Some((bi as int, be as nat))
                    && bi < alts@.len(),
            },
        decreases alts@.len() - i,
    {
        let have = key_parts(alts[i].0.as_str());
        proof {
            assert(av[i as int].0 == alts@[i as int].0@);
        }
        if all_in(requested, &have) {
            let hl = have.len();
            let rl = requested.len();
            let extras: usize = if hl > rl {
                hl - rl
            } else {
                0
            };
            proof {
                assert(extras as nat == spec_extras(req, av[i as int].0));
            }
            match best {
                None => {
                    best = Some((i, extras));
                },
                Some((_, be)) => {
                    if extras < be {
                        best = Some((i, extras));
                    }
                },
            }
        }
        i = i + 1;
    }
    match best {
        Some((bi, _)) => {
            let k = clone_string(&alts[bi].0);
            let c = alts[bi].1;
            proof {
                assert(av[bi as int].0 == alts@[bi as int].0@ && av[bi as int].1
                    == alts@[bi as int].1);
            }
            (k, c)
        },
        None => {
            if alts.len() > 0 {
                let k = clone_string(&alts[0].0);
                let c = alts[0].1;
                proof {
                    assert(av[0].0 == alts@[0].0@ && av[0].1 == alts@[0].1);
                }
                (k, c)
            } else {
                (String::new(), '\u{FFFD}')
            }
        },
    }
}

/// A resolved symbol: where it was found, what was asked for, and the
/// chosen character.
#[derive(Debug)]
pub struct Resolved {
    pub input: String,
    pub module: &'static str,
    pub base: String,
    pub modifiers: Vec<String>,
    pub ch: char,
    pub variant_key: Option<String>,
}

/// Resolves one dotted name to a character: the prefix picks the table,
/// the base picks the definition, and the remaining pieces pick the
/// variant of a multi-character definition. `None` for an unparsable name,
/// an unknown prefix or base, or a base that names a nested module.
pub fn resolve_one(name: &str) -> (r: Option<Resolved>)
    ensures
        ({
            let parts = split_dots(name@);
            if parts.len() < 2 {
                r is None
            } else {
                match spec_prefix_handle(parts[0]) {
                    None => r is None,
                    Some(h) => match spec_lookup(handle_entries(h), parts[1]) {
                        None => r is None,
                        Some(DefView::Nested) => r is None,
                        Some(DefView::Single(c)) => r matches Some(res) && res.input@ == name@
                            && res.module@ == parts[0] && res.base@ == parts[1] && strs_view(
                            res.modifiers@,
                        ) == parts.skip(2) && res.ch == c && res.variant_key is None,
                        Some(DefView::Multi(alts)) => ({
                            let pick = spec_pick_result(parts.skip(2), alts);
                            r matches Some(res) && res.input@ == name@ && res.module@ == parts[0]
                                && res.base@ == parts[1] && strs_view(res.modifiers@)
                                == parts.skip(2) && res.ch == pick.1 && (if pick.0.len() == 0 {
                                res.variant_key is None
                            } else {
                                res.variant_key matches Some(k) && k@ == pick.0
                            })
                        }),
                    },
                }
            }
        }),
{
    let parsed = match parse_name(name) {
        Some(t) => t,
        None => {
            return None;
        },
    };
    let (prefix, base, mods) = parsed;
    let looked = match module_for(prefix) {
        Some(t) => t,
        None => {
            return None;
        },
    };
    let (module_name, handle) = looked;
    let def = match lookup_in(&handle, base) {
        Some(d) => d,
        None => {
            return None;
        },
    };
    let mut modifiers: Vec<String> = Vec::new();
    let mut i: usize = 0;
    while i < mods.len()
        invariant
            i <= mods@.len(),
            modifiers@.len() == i,
            forall|j: int| 0 <= j < i ==> modifiers@[j]@ == mods@[j]@,
        decreases mods@.len() - i,
    {
        modifiers.push(mods[i].to_owned());
        i = i + 1;
    }
    proof {
        assert(strs_view(modifiers@) =~= slices_view(mods@));
    }
    match def {
        SymbolDef::Single(c) => Some(
            Resolved {
                input: name.to_owned(),
                module: module_name,
                base: base.to_owned(),
                modifiers,
                ch: c,
                variant_key: None,
            },
        ),
        SymbolDef::Multi(alts) => {
            let (k, c) = pick_variant(&mods, &alts);
            let key_empty = k.as_str().unicode_len() == 0;
            proof {
                assert(def_view(SymbolDef::Multi(alts)) matches DefView::Multi(a) && a
                    == alts@.map_values(|p: (String, char)| (p.0@, p.1)));
            }
            Some(
                Resolved {
                    input: name.to_owned(),
                    module: module_name,
                    base: base.to_owned(),
                    modifiers,
                    ch: c,
                    variant_key: if key_empty {
                        None
                    } else {
                        Some(k)
                    },
                },
            )
        },
        SymbolDef::Nested => None,
    }
}

/// The search hits over the first `k` entries: every entry whose
/// lower-cased key contains the lower-cased query, a single definition
/// contributing its character and a non-empty multi definition its first
/// variant's character.
pub open spec fn spec_search_fold(
    entries: Seq<(Seq<char>, DefView)>,
    lq: Seq<char>,
    k: int,
) -> Seq<(Seq<char>, char)>
    decreases k,
{
    if k <= 0 {
        Seq::empty()
    } else {
        let prev = spec_search_fold(entries, lq, k - 1);
        let e = entries[k - 1];
        if spec_contains(lower_of(e.0), lq) {
            match e.1 {
                DefView::Single(c) => prev.push((e.0, c)),
                DefView::Multi(alts) => if alts.len() > 0 {
                    prev.push((e.0, alts[0].1))
                } else {
                    prev
                },
                DefView::Nested => prev,
            }
        } else {
            prev
        }
    }
}

/// Case-insensitive substring search over a table's keys: each hit pairs
/// the key with its character (a multi definition stands for its first
/// variant; nested modules are skipped), in table order.
#[verifier::loop_isolation(false)]
pub fn search(module: ModuleHandle, q: &str) -> (r: Vec<(String, char)>)
    ensures
        ({
            let entries = handle_entries(module);
            let hits = spec_search_fold(entries, lower_of(q@), entries.len() as int);
            &&& r@.len() == hits.len()
            &&& forall|i: int|
                0 <= i < hits.len() ==> r@[i].0@ == hits[i].0 && r@[i].1 == hits[i].1
        }),
{
    let ghost entries = handle_entries(module);
    let lq = to_lowercase_str(q);
    let list = entries_of(&module);
    let ghost ev = entries_view(list@);
    let mut out: Vec<(String, char)> = Vec::new();
    let mut i: usize = 0;
    while i < list.len()
        invariant
            i <= list@.len(),
            ev == entries,
            ev == entries_view(list@),
            entries.len() == list@.len(),
            lq@ == lower_of(q@),
            ({
                let hits = spec_search_fold(entries, lower_of(q@), i as int);
                &&& out@.len() == hits.len()
                &&& forall|j: int|
                    0 <= j < hits.len() ==> out@[j].0@ == hits[j].0 && out@[j].1 == hits[j].1
            }),
        decreases list@.len() - i,
    {
        let lk = to_lowercase_str(list[i].0.as_str());
        proof {
            assert(entries[i as int].0 == list@[i as int].0@);
            assert(entries[i as int].1 == def_view(list@[i as int].1));
        }
        if str_contains(lk.as_str(), lq.as_str()) {
            match &list[i].1 {
                SymbolDef::Single(c) => {
                    out.push((clone_string(&list[i].0), *c));
                },
                SymbolDef::Multi(alts) => {
                    if alts.len() > 0 {
                        let c0 = alts[0].1;
                        proof {
                            assert(def_view(list@[i as int].1) matches DefView::Multi(a) && a[0].1
                                == c0);
                        }
                        out.push((clone_string(&list[i].0), c0));
                    }
                },
                SymbolDef::Nested => {},
            }
        }
        i = i + 1;
    }
    out
}


/// The upper-case hex digit for a value below 16.
pub open spec fn spec_upper_hex_char(d: u8) -> char {
    if d < 10 {
        (('0' as u8) + d) as char
    } else {
        (('A' as u8) + (d - 10)) as char
    }
}

/// The one-character string for an upper-case hex digit.
fn upper_hex_str(d: u8) -> (r: &'static str)
    requires
        d < 16,
    ensures
        r@.len() == 1,
        r@[0] == spec_upper_hex_char(d),
{
    proof {
        reveal_strlit("0");
        reveal_strlit("1");
        reveal_strlit("2");
        reveal_strlit("3");
        reveal_strlit("4");
        reveal_strlit("5");
        reveal_strlit("6");
        reveal_strlit("7");
        reveal_strlit("8");
        reveal_strlit("9");
        reveal_strlit("A");
        reveal_strlit("B");
        reveal_strlit("C");
        reveal_strlit("D");
        reveal_strlit("E");
        reveal_strlit("F");
    }
    match d {
        0 => "0",
        1 => "1",
        2 => "2",
        3 => "3",
        4 => "4",
        5 => "5",
        6 => "6",
        7 => "7",
        8 => "8",
        9 => "9",
        10 => "A",
        11 => "B",
        12 => "C",
        13 => "D",
        14 => "E",
        _ => "F",
    }
}

/// The upper-case hex spelling of `n`, at least four digits wide and
/// without leading zeros beyond that width.
pub open spec fn spec_hex_u32_pad4(n: u32) -> Seq<char> {
    let c7 = spec_upper_hex_char(((n >> 28) & 0xF) as u8);
    let c6 = spec_upper_hex_char(((n >> 24) & 0xF) as u8);
    let c5 = spec_upper_hex_char(((n >> 20) & 0xF) as u8);
    let c4 = spec_upper_hex_char(((n >> 16) & 0xF) as u8);
    let c3 = spec_upper_hex_char(((n >> 12) & 0xF) as u8);
    let c2 = spec_upper_hex_char(((n >> 8) & 0xF) as u8);
    let c1 = spec_upper_hex_char(((n >> 4) & 0xF) as u8);
    let c0 = spec_upper_hex_char((n & 0xF) as u8);
    if n >> 28 != 0 {
        seq![c7, c6, c5, c4, c3, c2, c1, c0]
    } else if n >> 24 != 0 {
        seq![c6, c5, c4, c3, c2, c1, c0]
    } else if n >> 20 != 0 {
        seq![c5, c4, c3, c2, c1, c0]
    } else if n >> 16 != 0 {
        seq![c4, c3, c2, c1, c0]
    } else {
        seq![c3, c2, c1, c0]
    }
}

/// The `U+XXXX` notation for a character's code point.
#[verifier::loop_isolation(false)]
pub fn codepoint_hex(ch: char) -> (r: String)
    ensures
        r@ == "U+"@ + spec_hex_u32_pad4(ch as u32),
{
    let n = ch as u32;
    proof {
        assert((n >> 28) & 0xF < 16 && (n >> 24) & 0xF < 16 && (n >> 20) & 0xF < 16 && (n >> 16)
            & 0xF < 16 && (n >> 12) & 0xF < 16 && (n >> 8) & 0xF < 16 && (n >> 4) & 0xF < 16 && n
            & 0xF < 16) by (bit_vector);
    }
    let mut out: String = "U+".to_owned();
    if n >> 28 != 0 {
        out.append(upper_hex_str(((n >> 28) & 0xF) as u8));
    }
    if n >> 24 != 0 {
        out.append(upper_hex_str(((n >> 24) & 0xF) as u8));
    }
    if n >> 20 != 0 {
        out.append(upper_hex_str(((n >> 20) & 0xF) as u8));
    }
    if n >> 16 != 0 {
        out.append(upper_hex_str(((n >> 16) & 0xF) as u8));
    }
    out.append(upper_hex_str(((n >> 12) & 0xF) as u8));
    out.append(upper_hex_str(((n >> 8) & 0xF) as u8));
    out.append(upper_hex_str(((n >> 4) & 0xF) as u8));
    out.append(upper_hex_str((n & 0xF) as u8));
    proof {
        assert(n >> 28 != 0 ==> n >> 24 != 0 && n >> 20 != 0 && n >> 16 != 0) by (bit_vector);
        assert(n >> 24 != 0 ==> n >> 20 != 0 && n >> 16 != 0) by (bit_vector);
        assert(n >> 20 != 0 ==> n >> 16 != 0) by (bit_vector);
        assert(out@ =~= "U+"@ + spec_hex_u32_pad4(ch as u32));
    }
    out
}

/// Relies on `char::encode_utf8`: the UTF-8 bytes of one character,
/// exactly as vstd's own UTF-8 model spells them (the same model vstd uses
/// to relate a string's bytes to its characters).
#[verifier::external_body]
fn char_utf8_bytes(c: char) -> (r: Vec<u8>)
    ensures
        r@ == vstd::utf8::encode_utf8(seq![c]),
{
    let mut buf = [0u8; 4];
    c.encode_utf8(&mut buf).as_bytes().to_vec()
}

/// Relies on `char`'s `ToString`: the one-character string of `c`.
#[verifier::external_body]
fn char_to_string(c: char) -> (r: String)
    ensures
        r@ == seq![c],
{
    c.to_string()
}

/// The first `k` bytes in upper-case hex, two digits each, separated by
/// single spaces.
pub open spec fn spec_hex_spaced(bytes: Seq<u8>, k: int) -> Seq<char>
    decreases k,
{
    if k <= 0 {
        Seq::empty()
    } else {
        let prev = spec_hex_spaced(bytes, k - 1);
        let sep: Seq<char> = if k == 1 {
            Seq::empty()
        } else {
            seq![' ']
        };
        prev + sep + seq![
            spec_upper_hex_char(bytes[k - 1] >> 4),
            spec_upper_hex_char(bytes[k - 1] & 0x0F),
        ]
    }
}

/// The space-separated upper-case hex spelling of a character's UTF-8
/// bytes.
#[verifier::loop_isolation(false)]
pub fn utf8_bytes_hex(ch: char) -> (r: String)
    ensures
        ({
            let bytes = vstd::utf8::encode_utf8(seq![ch]);
            r@ == spec_hex_spaced(bytes, bytes.len() as int)
        }),
{
    let bytes = char_utf8_bytes(ch);
    let mut out: String = String::new();
    let mut i: usize = 0;
    while i < bytes.len()
        invariant
            i <= bytes@.len(),
            bytes@ == vstd::utf8::encode_utf8(seq![ch]),
            out@ == spec_hex_spaced(bytes@, i as int),
        decreases bytes@.len() - i,
    {
        if i > 0 {
            out.append(" ");
            proof {
                reveal_strlit(" ");
            }
        }
        let b = bytes[i];
        proof {
            assert(b >> 4 < 16 && b & 0x0F < 16) by (bit_vector);
        }
        out.append(upper_hex_str(b >> 4));
        out.append(upper_hex_str(b & 0x0F));
        i = i + 1;
        proof {
            assert(out@ =~= spec_hex_spaced(bytes@, i as int));
        }
    }
    out
}

/// A resolution prepared for JSON: every field spelled out as text.
#[derive(Debug)]
pub struct JsonResolved {
    pub name: String,
    pub glyph: String,
    pub codepoint: String,
    pub utf8: String,
    pub module: String,
    pub base: String,
    pub modifiers: Vec<String>,
    pub variant: Option<String>,
    pub source: &'static str,
}

impl JsonResolved {
    /// Spells a resolution out: the character itself, its `U+` code point,
    /// its UTF-8 bytes in hex, and the lookup that produced it, tagged
    /// with the notation data's source.
    pub fn from_resolved(r: Resolved) -> (j: JsonResolved)
        ensures
            j.name@ == r.input@,
            j.glyph@ == seq![r.ch],
            j.codepoint@ == "U+"@ + spec_hex_u32_pad4(r.ch as u32),
            j.utf8@ == ({
                let bytes = vstd::utf8::encode_utf8(seq![r.ch]);
                spec_hex_spaced(bytes, bytes.len() as int)
            }),
            j.module@ == r.module@,
            j.base@ == r.base@,
            strs_view(j.modifiers@) == strs_view(r.modifiers@),
            (match r.variant_key {
                Some(k) => j.variant matches Some(v) && v@ == k@,
                None => j.variant is None,
            }),
            j.source@ == "codex 0.1.1"@,
    {
        JsonResolved {
            name: r.input,
            glyph: char_to_string(r.ch),
            codepoint: codepoint_hex(r.ch),
            utf8: utf8_bytes_hex(r.ch),
            module: r.module.to_owned(),
            base: r.base,
            modifiers: r.modifiers,
            variant: r.variant_key,
            source: "codex 0.1.1",
        }
    }
}

} // verus!
