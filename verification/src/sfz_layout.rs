//! The header structure of an SFZ file: which opcodes are in force for each group and
//! region, following the precedence `<control>` → `<global>` → `<master>` →
//! `<group>` → `<region>`.

use vstd::prelude::*;
use crate::sfz_opcode_map::OpcodeMap;
use crate::sfz_tokenize::{Token, TokenKind, TokenView, token_view, tokens_view};
use crate::sfz_tokenize::{tokenize, tokenize_spec};
use crate::text::{chars_eq_str, chars_of, str_eq};

verus! {

/// Opcode name → value text.
pub type OpcodeView = Map<Seq<char>, Seq<char>>;

/// The opcodes collected from `i` on until the next header, added to `m`; and the
/// position of that header (or the end). A later opcode of the same name wins.
pub open spec fn collect_spec(ts: Seq<TokenView>, i: int, m: OpcodeView) -> (OpcodeView, int)
    decreases ts.len() - i,
{
    if i < 0 || i >= ts.len() {
        (m, if i < 0 { 0 } else { ts.len() as int })
    } else {
        match ts[i] {
            TokenView::Header(_, _) => (m, i),
            TokenView::Opcode(k, v, _) => collect_spec(ts, i + 1, m.insert(k, v)),
        }
    }
}

pub proof fn lemma_collect_bounds(ts: Seq<TokenView>, i: int, m: OpcodeView)
    requires
        0 <= i <= ts.len(),
    ensures
        i <= collect_spec(ts, i, m).1 <= ts.len(),
    decreases ts.len() - i,
{
    if i < ts.len() {
        match ts[i] {
            TokenView::Header(_, _) => {},
            TokenView::Opcode(k, v, _) => lemma_collect_bounds(ts, i + 1, m.insert(k, v)),
        }
    }
}

/// The headers from position `i` on, each with the opcodes that follow it. Opcodes
/// before the first header belong to no header and are ignored.
pub open spec fn blocks_from(ts: Seq<TokenView>, i: int) -> Seq<(Seq<char>, OpcodeView)>
    decreases ts.len() - i,
{
    if i < 0 || i >= ts.len() {
        Seq::empty()
    } else {
        match ts[i] {
            TokenView::Opcode(_, _, _) => blocks_from(ts, i + 1),
            TokenView::Header(name, _) => {
                let c = collect_spec(ts, i + 1, Map::empty());
                proof {
                    lemma_collect_bounds(ts, i + 1, Map::empty());
                }
                seq![(name, c.0)] + blocks_from(ts, c.1)
            },
        }
    }
}

/// A region as the layout sees it: the opcodes in force for it and how many
/// `<curve>` headers came before it.
pub struct RegionView {
    pub opcodes: OpcodeView,
    pub curves_before: nat,
}

/// A group as the layout sees it: the opcodes in force for it (`None` for the group
/// made implicitly for regions outside any `<group>`), the `<master>` header in force
/// when it began, how many `<curve>` headers came before it, and its regions.
pub struct GroupView {
    pub opcodes: Option<OpcodeView>,
    pub master: Option<OpcodeView>,
    pub curves_before: nat,
    pub regions: Seq<RegionView>,
}

/// The state of the header walk.
pub struct ScopeState {
    pub control: OpcodeView,
    pub global: OpcodeView,
    pub master: OpcodeView,
    pub master_raw: Option<OpcodeView>,
    pub group: OpcodeView,
    pub current: Option<GroupView>,
    pub groups: Seq<GroupView>,
    pub globals: Seq<OpcodeView>,
    pub curves: Seq<OpcodeView>,
}

/// The walk before any header.
pub open spec fn initial_scope() -> ScopeState {
    ScopeState {
        control: Map::empty(),
        global: Map::empty(),
        master: Map::empty(),
        master_raw: None,
        group: Map::empty(),
        current: None,
        groups: Seq::empty(),
        globals: Seq::empty(),
        curves: Seq::empty(),
    }
}

/// The region opcodes name a sample: `sample` is present, not empty and not `*`.
pub open spec fn has_sample(m: OpcodeView) -> bool {
    m.dom().contains("sample"@) && m["sample"@].len() > 0 && m["sample"@] != "*"@
}

/// The opcodes of a `<global>` header that are kept for the groups below it.
pub open spec fn global_rest(h: OpcodeView) -> OpcodeView {
    h.remove("global_volume"@).remove("global_pan"@).remove("global_tune"@)
}

/// The opcodes of a `<master>` header that are kept for the groups below it.
pub open spec fn master_rest(h: OpcodeView) -> OpcodeView {
    h.remove("master_volume"@).remove("master_pan"@).remove("master_tune"@)
}

/// How one header with its opcodes `h` changes the walk.
///
/// `<global>` records its opcodes for the part, becomes the global scope, clears the
/// master and group scopes, and closes the group being built (which is kept).
/// `<master>` becomes the master scope. `<group>` closes the group being built and
/// starts one whose opcodes are control, global, master and its own, later ones
/// winning. `<region>` adds, when its opcodes (the group scope's, then its own) name a
/// sample, a region to the group being built, starting an implicit group if there is
/// none. `<control>` adds to the control scope; `<curve>` is recorded. Other headers
/// change nothing.
pub open spec fn scope_step(st: ScopeState, name: Seq<char>, h: OpcodeView) -> ScopeState {
    if name == "global"@ {
        ScopeState {
            global: global_rest(h),
            master: Map::empty(),
            master_raw: None,
            group: Map::empty(),
            current: None,
            groups: match st.current {
                Some(c) => st.groups.push(c),
                None => st.groups,
            },
            globals: st.globals.push(h),
            ..st
        }
    } else if name == "master"@ {
        ScopeState { master: master_rest(h), master_raw: Some(h), ..st }
    } else if name == "group"@ {
        let g = st.control.union_prefer_right(st.global).union_prefer_right(st.master).union_prefer_right(h);
        ScopeState {
            group: g,
            current: Some(
                GroupView {
                    opcodes: Some(g),
                    master: st.master_raw,
                    curves_before: st.curves.len(),
                    regions: Seq::empty(),
                },
            ),
            groups: match st.current {
                Some(c) => st.groups.push(c),
                None => st.groups,
            },
            ..st
        }
    } else if name == "region"@ {
        let r = st.group.union_prefer_right(h);
        if has_sample(r) {
            let cur = match st.current {
                Some(c) => c,
                None => GroupView { opcodes: None, master: None, curves_before: st.curves.len(), regions: Seq::empty() },
            };
            ScopeState {
                current: Some(
                    GroupView {
                        regions: cur.regions.push(RegionView { opcodes: r, curves_before: st.curves.len() }),
                        ..cur
                    },
                ),
                ..st
            }
        } else {
            st
        }
    } else if name == "control"@ {
        ScopeState { control: st.control.union_prefer_right(h), ..st }
    } else if name == "curve"@ {
        ScopeState { curves: st.curves.push(h), ..st }
    } else {
        st
    }
}

/// The opcodes in force for a region are its group scope's, overridden by the region's
/// own: after a `<region>` header `h` whose own `sample` names one, the group being
/// built has one region more, last; every opcode `h` sets has there exactly the value
/// `h` gives it, and every other opcode is there exactly when the group scope has it,
/// with the group scope's value.
pub proof fn lemma_region_opcodes_override(st: ScopeState, h: OpcodeView)
    requires
        has_sample(h),
    ensures
        ({
            let before = match st.current {
                Some(c) => c.regions,
                None => Seq::empty(),
            };
            &&& scope_step(st, "region"@, h).current matches Some(c)
            &&& c.regions.len() == before.len() + 1
            &&& c.regions.drop_last() == before
            &&& forall|k: Seq<char>| #[trigger] h.dom().contains(k) ==> c.regions.last().opcodes.dom().contains(k)
                && c.regions.last().opcodes[k] == h[k]
            &&& forall|k: Seq<char>|
                !h.dom().contains(k) ==> (#[trigger] c.regions.last().opcodes.dom().contains(k) <==> st.group.dom().contains(k))
            &&& forall|k: Seq<char>|
                !h.dom().contains(k) && #[trigger] st.group.dom().contains(k) ==> c.regions.last().opcodes[k] == st.group[k]
        }),
{
    reveal_strlit("global");
    reveal_strlit("master");
    reveal_strlit("group");
    reveal_strlit("region");
    assert("region"@[0] != "global"@[0]);
    assert("region"@[0] != "master"@[0]);
    assert("region"@[0] != "group"@[0]);
    let r = st.group.union_prefer_right(h);
    assert(r["sample"@] == h["sample"@]);
    assert(has_sample(r));
    let st2 = scope_step(st, "region"@, h);
    let before = match st.current {
        Some(c) => c.regions,
        None => Seq::<RegionView>::empty(),
    };
    let c = st2.current->0;
    assert(c.regions.drop_last() =~= before);
}

/// The opcodes of a group are those in force from the file down to its own header,
/// later scopes winning: after a `<group>` header `h`, an opcode `h` sets has exactly
/// the value `h` gives it; any other has the `<master>` scope's value where it sets
/// one, else the `<global>` scope's, else the `<control>` scope's; and the new group
/// scope is also what the regions below start from.
pub proof fn lemma_group_opcodes_override(st: ScopeState, h: OpcodeView, k: Seq<char>)
    ensures
        ({
            let st2 = scope_step(st, "group"@, h);
            let g = st2.group;
            &&& st2.current matches Some(c) && c.opcodes == Some(g) && c.regions.len() == 0
            &&& h.dom().contains(k) ==> g.dom().contains(k) && g[k] == h[k]
            &&& !h.dom().contains(k) && st.master.dom().contains(k) ==> g.dom().contains(k) && g[k] == st.master[k]
            &&& !h.dom().contains(k) && !st.master.dom().contains(k) && st.global.dom().contains(k) ==> g.dom().contains(k)
                && g[k] == st.global[k]
            &&& !h.dom().contains(k) && !st.master.dom().contains(k) && !st.global.dom().contains(k) ==> (g.dom().contains(k)
                <==> st.control.dom().contains(k)) && (st.control.dom().contains(k) ==> g[k] == st.control[k])
        }),
{
    reveal_strlit("global");
    reveal_strlit("master");
    reveal_strlit("group");
    assert("group"@[1] != "global"@[1]);
    assert("group"@[0] != "master"@[0]);
}

/// The walk over a list of headers.
pub open spec fn scope_fold(blocks: Seq<(Seq<char>, OpcodeView)>) -> ScopeState
    decreases blocks.len(),
{
    if blocks.len() == 0 {
        initial_scope()
    } else {
        scope_step(scope_fold(blocks.drop_last()), blocks.last().0, blocks.last().1)
    }
}

/// The groups of a finished walk: the closed groups and the one being built.
pub open spec fn final_groups(st: ScopeState) -> Seq<GroupView> {
    match st.current {
        Some(c) => st.groups.push(c),
        None => st.groups,
    }
}

/// The layout of a tokenized SFZ file.
pub struct LayoutView {
    pub globals: Seq<OpcodeView>,
    pub curves: Seq<OpcodeView>,
    pub groups: Seq<GroupView>,
}

/// The layout of the tokens `ts`.
pub open spec fn layout_spec(ts: Seq<TokenView>) -> LayoutView {
    let st = scope_fold(blocks_from(ts, 0));
    LayoutView { globals: st.globals, curves: st.curves, groups: final_groups(st) }
}

/// A region of the file: the opcodes in force for it, and how many `<curve>` headers
/// came before it.
#[derive(Debug)]
pub struct RegionLayout {
    pub opcodes: OpcodeMap,
    pub curves_before: usize,
}

/// A group of the file: its opcodes (`None` for an implicit group), the `<master>`
/// header in force when it began, how many `<curve>` headers came before it, and its
/// regions.
#[derive(Debug)]
pub struct GroupLayout {
    pub opcodes: Option<OpcodeMap>,
    pub master: Option<OpcodeMap>,
    pub curves_before: usize,
    pub regions: Vec<RegionLayout>,
}

/// The header structure of an SFZ file: the opcodes of each `<global>` header, each
/// `<curve>` header, and the groups with their regions.
#[derive(Debug)]
pub struct SfzLayout {
    pub globals: Vec<OpcodeMap>,
    pub curves: Vec<OpcodeMap>,
    pub groups: Vec<GroupLayout>,
}

pub open spec fn region_view(r: RegionLayout) -> RegionView {
    RegionView { opcodes: r.opcodes@, curves_before: r.curves_before as nat }
}

pub open spec fn opt_view(m: Option<OpcodeMap>) -> Option<OpcodeView> {
    match m {
        Some(x) => Some(x@),
        None => None,
    }
}

pub open spec fn group_view(g: GroupLayout) -> GroupView {
    GroupView {
        opcodes: opt_view(g.opcodes),
        master: opt_view(g.master),
        curves_before: g.curves_before as nat,
        regions: Seq::new(g.regions@.len(), |i: int| region_view(g.regions@[i])),
    }
}

pub open spec fn maps_view(v: Seq<OpcodeMap>) -> Seq<OpcodeView> {
    Seq::new(v.len(), |i: int| v[i]@)
}

pub open spec fn groups_view(v: Seq<GroupLayout>) -> Seq<GroupView> {
    Seq::new(v.len(), |i: int| group_view(v[i]))
}

pub open spec fn layout_view(l: SfzLayout) -> LayoutView {
    LayoutView { globals: maps_view(l.globals@), curves: maps_view(l.curves@), groups: groups_view(l.groups@) }
}

/// The headers with their opcodes, as characters.
pub open spec fn blocks_view(b: Seq<(String, OpcodeMap)>) -> Seq<(Seq<char>, OpcodeView)> {
    Seq::new(b.len(), |i: int| (b[i].0@, b[i].1@))
}

fn is_opcode_token(t: &Token) -> (r: bool)
    ensures
        r == (token_view(*t) matches TokenView::Opcode(_, _, _)),
{
    match &t.kind {
        TokenKind::Opcode(_, _) => true,
        TokenKind::Header(_) => false,
    }
}

/// Groups the tokens into headers, each with the opcodes that follow it, as
/// `blocks_from` describes.
pub fn header_blocks(tokens: &[Token]) -> (blocks: Vec<(String, OpcodeMap)>)
    ensures
        blocks_view(blocks@) == blocks_from(tokens_view(tokens@), 0),
{
    let ghost ts = tokens_view(tokens@);
    let mut blocks: Vec<(String, OpcodeMap)> = Vec::new();
    let mut i: usize = 0;
    let n = tokens.len();
    while i < n
        invariant
            n == tokens@.len(),
            ts == tokens_view(tokens@),
            i <= n,
            blocks_view(blocks@) + blocks_from(ts, i as int) == blocks_from(ts, 0),
        decreases n - i,
    {
        match &tokens[i].kind {
            TokenKind::Opcode(_, _) => {
                assert(ts[i as int] matches TokenView::Opcode(_, _, _));
                i = i + 1;
            },
            TokenKind::Header(name) => {
                let mut m = OpcodeMap::new();
                let mut j = i + 1;
                while j < n && is_opcode_token(&tokens[j])
                    invariant
                        n == tokens@.len(),
                        ts == tokens_view(tokens@),
                        i < j <= n,
                        collect_spec(ts, j as int, m@) == collect_spec(ts, i + 1, Map::empty()),
                    decreases n - j,
                {
                    match &tokens[j].kind {
                        TokenKind::Header(_) => {},
                        TokenKind::Opcode(k, v) => {
                            m.insert_str(k.as_str(), v.as_str());
                        },
                    }
                    j = j + 1;
                }
                proof {
                    lemma_collect_bounds(ts, i + 1, Map::empty());
                    assert(collect_spec(ts, j as int, m@) == (m@, j as int));
                }
                let ghost before = blocks_view(blocks@);
                let nm = name.clone();
                blocks.push((nm, m));
                proof {
                    assert(blocks_view(blocks@) =~= before.push((name@, m@)));
                    assert(before.push((name@, m@)) + blocks_from(ts, j as int) =~= before + (seq![(name@, m@)] + blocks_from(ts, j as int)));
                }
                i = j;
            },
        }
    }
    assert(blocks_view(blocks@) + Seq::<(Seq<char>, OpcodeView)>::empty() =~= blocks_view(blocks@));
    blocks
}

/// The header walk as it runs: the scopes in force and what has been built so far.
struct Walk {
    control: OpcodeMap,
    global: OpcodeMap,
    master: OpcodeMap,
    master_raw: Option<OpcodeMap>,
    group: OpcodeMap,
    current: Option<GroupLayout>,
    groups: Vec<GroupLayout>,
    globals: Vec<OpcodeMap>,
    curves: Vec<OpcodeMap>,
}

spec fn opt_group_view(g: Option<GroupLayout>) -> Option<GroupView> {
    match g {
        Some(x) => Some(group_view(x)),
        None => None,
    }
}

spec fn walk_view(w: Walk) -> ScopeState {
    ScopeState {
        control: w.control@,
        global: w.global@,
        master: w.master@,
        master_raw: opt_view(w.master_raw),
        group: w.group@,
        current: opt_group_view(w.current),
        groups: groups_view(w.groups@),
        globals: maps_view(w.globals@),
        curves: maps_view(w.curves@),
    }
}

fn copy_opt_map(m: &Option<OpcodeMap>) -> (r: Option<OpcodeMap>)
    ensures
        opt_view(r) == opt_view(*m),
{
    match m {
        Some(x) => Some(x.clone_map()),
        None => None,
    }
}

/// Whether the opcodes name a sample, as `has_sample` states.
fn names_sample(m: &OpcodeMap) -> (r: bool)
    ensures
        r == has_sample(m@),
{
    let key = chars_of("sample");
    match m.get(key.as_slice()) {
        Some(v) => v.len() > 0 && !chars_eq_str(v.as_slice(), "*"),
        None => false,
    }
}

fn push_map(v: &mut Vec<OpcodeMap>, m: OpcodeMap)
    ensures
        maps_view(final(v)@) == maps_view(old(v)@).push(m@),
{
    v.push(m);
    assert(maps_view(v@) =~= maps_view(old(v)@).push(m@));
}

fn push_group(v: &mut Vec<GroupLayout>, g: GroupLayout)
    ensures
        groups_view(final(v)@) == groups_view(old(v)@).push(group_view(g)),
{
    let ghost gv = group_view(g);
    v.push(g);
    assert(groups_view(v@) =~= groups_view(old(v)@).push(gv));
}

fn push_region(v: &mut Vec<RegionLayout>, r: RegionLayout)
    ensures
        Seq::new(final(v)@.len(), |i: int| region_view(final(v)@[i]))
            == Seq::new(old(v)@.len(), |i: int| region_view(old(v)@[i])).push(region_view(r)),
{
    let ghost rv = region_view(r);
    v.push(r);
    assert(Seq::new(v@.len(), |i: int| region_view(v@[i])) =~= Seq::new(
        old(v)@.len(),
        |i: int| region_view(old(v)@[i]),
    ).push(rv));
}

impl Walk {
    fn new() -> (w: Walk)
        ensures
            walk_view(w) == initial_scope(),
    {
        let w = Walk {
            control: OpcodeMap::new(),
            global: OpcodeMap::new(),
            master: OpcodeMap::new(),
            master_raw: None,
            group: OpcodeMap::new(),
            current: None,
            groups: Vec::new(),
            globals: Vec::new(),
            curves: Vec::new(),
        };
        assert(groups_view(w.groups@) =~= Seq::empty());
        assert(maps_view(w.globals@) =~= Seq::empty());
        assert(maps_view(w.curves@) =~= Seq::empty());
        w
    }

    /// One header with its opcodes, as `scope_step` states.
    fn step(&mut self, name: &str, h: OpcodeMap)
        ensures
            walk_view(*final(self)) == scope_step(walk_view(*old(self)), name@, h@),
    {
        let ghost st = walk_view(*self);
        if str_eq(name, "global") {
            let mut kept = h.clone_map();
            kept.remove("global_volume");
            kept.remove("global_pan");
            kept.remove("global_tune");
            self.global = kept;
            self.master = OpcodeMap::new();
            self.master_raw = None;
            self.group = OpcodeMap::new();
            let prev = self.current.take();
            match prev {
                Some(c) => push_group(&mut self.groups, c),
                None => {},
            }
            push_map(&mut self.globals, h);
        } else if str_eq(name, "master") {
            let mut kept = h.clone_map();
            kept.remove("master_volume");
            kept.remove("master_pan");
            kept.remove("master_tune");
            self.master = kept;
            self.master_raw = Some(h);
        } else if str_eq(name, "group") {
            let mut g = self.control.clone_map();
            g.extend(&self.global);
            g.extend(&self.master);
            g.extend(&h);
            let cur = GroupLayout {
                opcodes: Some(g.clone_map()),
                master: copy_opt_map(&self.master_raw),
                curves_before: self.curves.len(),
                regions: Vec::new(),
            };
            assert(Seq::new(cur.regions@.len(), |i: int| region_view(cur.regions@[i])) =~= Seq::<RegionView>::empty());
            let prev = self.current.take();
            match prev {
                Some(c) => push_group(&mut self.groups, c),
                None => {},
            }
            self.current = Some(cur);
            self.group = g;
        } else if str_eq(name, "region") {
            let mut r = self.group.clone_map();
            r.extend(&h);
            if names_sample(&r) {
                let curves_before = self.curves.len();
                let prev = self.current.take();
                let mut cur = match prev {
                    Some(c) => c,
                    None => {
                        let g = GroupLayout { opcodes: None, master: None, curves_before, regions: Vec::new() };
                        assert(Seq::new(g.regions@.len(), |i: int| region_view(g.regions@[i])) =~= Seq::<RegionView>::empty());
                        g
                    },
                };
                push_region(&mut cur.regions, RegionLayout { opcodes: r, curves_before });
                self.current = Some(cur);
            }
        } else if str_eq(name, "control") {
            self.control.extend(&h);
        } else if str_eq(name, "curve") {
            push_map(&mut self.curves, h);
        }
    }
}

proof fn lemma_fold_step(b: Seq<(Seq<char>, OpcodeView)>, i: int)
    requires
        0 <= i < b.len(),
    ensures
        scope_fold(b.subrange(0, i + 1)) == scope_step(scope_fold(b.subrange(0, i)), b[i].0, b[i].1),
{
    assert(b.subrange(0, i + 1).drop_last() =~= b.subrange(0, i));
}

/// Walks the headers of the tokens, as `layout_spec` states: the opcodes in force for
/// each group and region, the `<global>` and `<curve>` headers.
pub fn build_layout(tokens: &[Token]) -> (layout: SfzLayout)
    ensures
        layout_view(layout) == layout_spec(tokens_view(tokens@)),
{
    let blocks = header_blocks(tokens);
    let ghost bv = blocks_view(blocks@);
    let mut w = Walk::new();
    let mut i: usize = 0;
    assert(bv.subrange(0, 0) =~= Seq::empty());
    while i < blocks.len()
        invariant
            bv == blocks_view(blocks@),
            i <= blocks@.len(),
            walk_view(w) == scope_fold(bv.subrange(0, i as int)),
        decreases blocks@.len() - i,
    {
        let h = blocks[i].1.clone_map();
        w.step(blocks[i].0.as_str(), h);
        proof {
            lemma_fold_step(bv, i as int);
        }
        i = i + 1;
    }
    assert(bv.subrange(0, i as int) =~= bv);
    let mut groups = w.groups;
    match w.current {
        Some(c) => push_group(&mut groups, c),
        None => {},
    }
    SfzLayout { globals: w.globals, curves: w.curves, groups }
}

/// The layout of preprocessed SFZ text: its tokens walked as `build_layout` states.
pub fn layout_of_text(text: &str) -> (layout: SfzLayout)
    requires
        text@.len() < usize::MAX,
    ensures
        layout_view(layout) == layout_spec(tokenize_spec(text@)),
{
    let tokens = tokenize(text);
    build_layout(tokens.as_slice())
}

/// Every region of the group names a sample and carries every opcode of its group.
pub open spec fn group_regions_sound(g: GroupView) -> bool {
    forall|j: int|
        0 <= j < g.regions.len() ==> {
            &&& has_sample(#[trigger] g.regions[j].opcodes)
            &&& (g.opcodes matches Some(o) ==> o.dom().subset_of(g.regions[j].opcodes.dom()))
        }
}

spec fn walk_sound(st: ScopeState) -> bool {
    &&& forall|i: int| 0 <= i < st.groups.len() ==> group_regions_sound(#[trigger] st.groups[i])
    &&& (st.current matches Some(c) ==> group_regions_sound(c))
    &&& (st.current matches Some(c) ==> (c.opcodes matches Some(o) ==> o == st.group))
}

proof fn lemma_fold_sound(b: Seq<(Seq<char>, OpcodeView)>)
    ensures
        walk_sound(scope_fold(b)),
    decreases b.len(),
{
    if b.len() > 0 {
        lemma_fold_sound(b.drop_last());
        let st = scope_fold(b.drop_last());
        let name = b.last().0;
        let h = b.last().1;
        let nx = scope_step(st, name, h);
        reveal_strlit("global");
        reveal_strlit("master");
        reveal_strlit("group");
        reveal_strlit("region");
        if name == "group"@ || name == "global"@ {
            assert forall|i: int| 0 <= i < nx.groups.len() implies group_regions_sound(#[trigger] nx.groups[i]) by {
                if i < st.groups.len() {
                    assert(nx.groups[i] == st.groups[i]);
                }
            }
        } else if name == "region"@ {
            assert("region"@[0] != "global"@[0]);
            assert("region"@[0] != "master"@[0]);
            assert("region"@[0] != "group"@[0]);
            let r = st.group.union_prefer_right(h);
            if has_sample(r) {
                let cur = match st.current {
                    Some(c) => c,
                    None => GroupView { opcodes: None, master: None, curves_before: st.curves.len(), regions: Seq::empty() },
                };
                let c2 = GroupView { regions: cur.regions.push(RegionView { opcodes: r, curves_before: st.curves.len() }), ..cur };
                assert(nx.current == Some(c2));
                assert forall|j: int| 0 <= j < c2.regions.len() implies {
                    &&& has_sample(#[trigger] c2.regions[j].opcodes)
                    &&& (c2.opcodes matches Some(o) ==> o.dom().subset_of(c2.regions[j].opcodes.dom()))
                } by {
                    if j < cur.regions.len() {
                        assert(c2.regions[j] == cur.regions[j]);
                    }
                }
            }
        }
    }
}

/// Every region of a parsed layout names a sample (`sample` present, not empty and
/// not `*`), and every opcode in force for an explicit group is in force for each of
/// its regions too.
pub proof fn lemma_layout_regions_sound(ts: Seq<TokenView>)
    ensures
        forall|i: int|
            0 <= i < layout_spec(ts).groups.len() ==> group_regions_sound(#[trigger] layout_spec(ts).groups[i]),
{
    let st = scope_fold(blocks_from(ts, 0));
    lemma_fold_sound(blocks_from(ts, 0));
    let gs = final_groups(st);
    assert forall|i: int| 0 <= i < gs.len() implies group_regions_sound(#[trigger] gs[i]) by {
        if i < st.groups.len() {
            assert(gs[i] == st.groups[i]);
        }
    }
}

} // verus!
