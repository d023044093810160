//! The table of declared topics: for each topic name, its payload type and
//! its wire subject, the dot-joined chain of own-subject segments from the
//! root of its parent chain down to the topic itself.
use vstd::prelude::*;
use crate::ast::{TopDecl, TypeExpr};
use crate::model::{items_view, module_view, top_view, SpecTopDecl, SpecTopicDecl, SpecTypeExpr};
use crate::strmap::{
    lemma_entries_map_at, lemma_entries_map_dom, lemma_entries_map_finite, StrMap,
};

verus! {

/// What a topic declaration says, before parent chains are followed.
pub struct RawTopic {
    pub payload: TypeExpr,
    pub parent: Option<String>,
    pub subject: String,
}

pub struct SpecRawTopic {
    pub payload: SpecTypeExpr,
    pub parent: Option<Seq<char>>,
    pub subject: Seq<char>,
}

impl DeepView for RawTopic {
    type V = SpecRawTopic;

    open spec fn deep_view(&self) -> SpecRawTopic {
        SpecRawTopic {
            payload: self.payload@,
            parent: match self.parent {
                Some(p) => Some(p@),
                None => None,
            },
            subject: self.subject@,
        }
    }
}

/// Per-topic data the desugar pass needs: the payload type (to fill
/// missing `ty` slots) and the wire subject that a topic reference
/// desugars to.
pub struct TopicEntry {
    pub payload: TypeExpr,
    pub wire_subject: String,
}

pub struct SpecTopicEntry {
    pub payload: SpecTypeExpr,
    pub wire_subject: Seq<char>,
}

impl DeepView for TopicEntry {
    type V = SpecTopicEntry;

    open spec fn deep_view(&self) -> SpecTopicEntry {
        SpecTopicEntry { payload: self.payload@, wire_subject: self.wire_subject@ }
    }
}

pub type TopicMap = Map<Seq<char>, SpecTopicEntry>;

pub type RawMap = Map<Seq<char>, SpecRawTopic>;

/// The texts of a list of names.
pub open spec fn names_view(v: Seq<String>) -> Seq<Seq<char>> {
    v.map_values(|s: String| s@)
}

/// The raw record of one topic declaration: its own subject is the
/// `subject:` field, or the topic's name when there is none.
pub open spec fn raw_of(t: SpecTopicDecl) -> SpecRawTopic {
    SpecRawTopic {
        payload: t.payload,
        parent: match t.parent {
            Some(p) => Some(p.name),
            None => None,
        },
        subject: match t.subject {
            Some(s) => s,
            None => t.name.name,
        },
    }
}

/// Topic declarations gathered in program order, descending into
/// modules; a later declaration of a name replaces an earlier one.
pub open spec fn gather_items(items: Seq<SpecTopDecl>, acc: RawMap) -> RawMap
    decreases items,
{
    if items.len() == 0 {
        acc
    } else {
        gather_item(items[items.len() - 1], gather_items(items.drop_last(), acc))
    }
}

pub open spec fn gather_item(item: SpecTopDecl, acc: RawMap) -> RawMap
    decreases item,
{
    match item {
        SpecTopDecl::Topic(t) => acc.insert(t.name.name, raw_of(t)),
        SpecTopDecl::Module(m) => gather_items(m.items, acc),
        _ => acc,
    }
}

/// Own subjects met when following parent links from `cur`, nearest
/// first. The walk is cut, and gives `None`, when it meets a name already
/// visited (a cycle) or a name that is not declared (a missing parent).
/// `fuel` bounds the walk; `lemma_parent_chain_fuel` shows that more fuel
/// changes nothing once it covers the declared names not yet visited.
pub open spec fn parent_chain(raw: RawMap, cur: Option<Seq<char>>, visited: Seq<Seq<char>>, fuel: nat) -> Option<Seq<Seq<char>>>
    decreases fuel,
{
    match cur {
        None => Some(Seq::empty()),
        Some(p) => if fuel == 0 || visited.contains(p) || !raw.contains_key(p) {
            None
        } else {
            prepend_opt(seq![raw[p].subject], parent_chain(raw, raw[p].parent, visited.push(p), (fuel - 1) as nat))
        },
    }
}

/// `prefix` put in front of the chain, when there is one.
pub open spec fn prepend_opt(prefix: Seq<Seq<char>>, chain: Option<Seq<Seq<char>>>) -> Option<Seq<Seq<char>>> {
    match chain {
        Some(c) => Some(prefix + c),
        None => None,
    }
}

/// `parts` joined with `.` between consecutive parts.
pub open spec fn dot_join(parts: Seq<Seq<char>>) -> Seq<char>
    decreases parts.len(),
{
    if parts.len() == 0 {
        Seq::empty()
    } else if parts.len() == 1 {
        parts[0]
    } else {
        dot_join(parts.drop_last()) + seq!['.'] + parts.last()
    }
}

/// The own subjects of `name` and of its ancestors, leaf first; `None`
/// when the parent walk is cut by a cycle or a missing parent.
pub open spec fn subject_chain(raw: RawMap, name: Seq<char>) -> Option<Seq<Seq<char>>> {
    prepend_opt(seq![raw[name].subject], parent_chain(raw, raw[name].parent, seq![name], raw.dom().len()))
}

/// The wire subject of `name`: its subject chain, root first, dot-joined;
/// its own subject alone when the chain is cut.
pub open spec fn wire_subject(raw: RawMap, name: Seq<char>) -> Seq<char> {
    match subject_chain(raw, name) {
        Some(c) => dot_join(c.reverse()),
        None => raw[name].subject,
    }
}

pub open spec fn entry_of(raw: RawMap, name: Seq<char>) -> SpecTopicEntry {
    SpecTopicEntry { payload: raw[name].payload, wire_subject: wire_subject(raw, name) }
}

/// The topic table of a program.
pub open spec fn topic_table(items: Seq<SpecTopDecl>) -> TopicMap {
    let raw = gather_items(items, Map::empty());
    Map::new(|k: Seq<char>| raw.contains_key(k), |k: Seq<char>| entry_of(raw, k))
}

impl TypeExpr {
    pub fn duplicate(&self) -> (r: TypeExpr)
        ensures
            r == *self,
    {
        TypeExpr { name: self.name.clone(), span: self.span }
    }
}

fn clone_opt_string(s: &Option<String>) -> (r: Option<String>)
    ensures
        r == *s,
{
    match s {
        Some(x) => Some(x.clone()),
        None => None,
    }
}

/// Records every topic declaration of `items` (and of nested modules) in
/// `raw`, in program order.
fn gather(items: &Vec<TopDecl>, raw: &mut StrMap<RawTopic>)
    requires
        old(raw).wf(),
    ensures
        final(raw).wf(),
        final(raw)@ == gather_items(items_view(items@), old(raw)@),
    decreases items,
{
    let ghost start = raw@;
    let ghost iv = items_view(items@);
    let mut i: usize = 0;
    while i < items.len()
        invariant
            i <= items@.len(),
            raw.wf(),
            iv == items_view(items@),
            raw@ == gather_items(iv.take(i as int), start),
        decreases items@.len() - i,
    {
        let ghost before = raw@;
        proof {
            assert(iv.take(i + 1).drop_last() =~= iv.take(i as int));
            assert(iv.take(i + 1)[i as int] == top_view(items@[i as int]));
            assert(gather_items(iv.take(i + 1), start) == gather_item(
                top_view(items@[i as int]),
                gather_items(iv.take(i as int), start),
            ));
        }
        match &items[i] {
            TopDecl::Topic(t) => {
                let subject = match &t.subject {
                    Some(s) => s.clone(),
                    None => t.name.name.clone(),
                };
                let parent = match &t.parent {
                    Some(p) => Some(p.name.clone()),
                    None => None,
                };
                raw.insert(
                    t.name.name.clone(),
                    RawTopic { payload: t.payload.duplicate(), parent, subject },
                );
            },
            TopDecl::Module(m) => {
                proof {
                    assert(decreases_to!(items => items@));
                    assert(decreases_to!(items@ => items@[i as int]));
                    assert(decreases_to!(items@[i as int] => m));
                    assert(decreases_to!(m => m.items));
                }
                gather(&m.items, raw);
                proof {
                    assert(module_view(*m).items =~= items_view(m.items@));
                }
            },
            _ => {},
        }
        assert(raw@ == gather_item(top_view(items@[i as int]), before));
        i = i + 1;
    }
    proof {
        assert(iv.take(items@.len() as int) =~= iv);
    }
}

/// True when `x` occurs in `v`.
pub fn contains_name(v: &Vec<String>, x: &String) -> (r: bool)
    ensures
        r == names_view(v@).contains(x@),
{
    let ghost vv = names_view(v@);
    let mut i: usize = 0;
    while i < v.len()
        invariant
            i <= v@.len(),
            vv == names_view(v@),
            forall|j: int| 0 <= j < i ==> vv[j] != x@,
        decreases v@.len() - i,
    {
        if v[i] == *x {
            proof {
                assert(vv[i as int] == x@);
            }
            return true;
        }
        i = i + 1;
    }
    false
}

/// `parts`, last first, joined with `.`.
fn join_reversed(parts: &Vec<String>) -> (r: String)
    ensures
        r@ == dot_join(names_view(parts@).reverse()),
{
    let ghost pv = names_view(parts@);
    let ghost rv = pv.reverse();
    let mut out = String::new();
    let n = parts.len();
    let mut i: usize = 0;
    proof {
        reveal_strlit(".");
        assert(rv.take(0) =~= Seq::<Seq<char>>::empty());
    }
    while i < n
        invariant
            n == parts@.len(),
            i <= n,
            pv == names_view(parts@),
            rv == pv.reverse(),
            out@ == dot_join(rv.take(i as int)),
            ".".view() == seq!['.'],
        decreases n - i,
    {
        let part = &parts[n - 1 - i];
        proof {
            assert(rv.take(i + 1).drop_last() =~= rv.take(i as int));
            assert(rv.take(i + 1).last() == part@);
        }
        if i > 0 {
            out.append(".");
        }
        out.append(part.as_str());
        proof {
            if i == 0 {
                assert(out@ =~= part@);
            }
        }
        i = i + 1;
    }
    proof {
        assert(rv.take(n as int) =~= rv);
    }
    out
}

proof fn lemma_visited_bound(raw: RawMap, visited: Seq<Seq<char>>)
    requires
        raw.dom().finite(),
        visited.no_duplicates(),
        forall|j: int| 0 <= j < visited.len() ==> raw.contains_key(#[trigger] visited[j]),
    ensures
        visited.len() <= raw.dom().len(),
{
    visited.unique_seq_to_set();
    assert(visited.to_set().subset_of(raw.dom()));
    vstd::set_lib::lemma_len_subset(visited.to_set(), raw.dom());
}

/// The wire subject of the entry `name`, following parent links in `raw`;
/// its own subject when the walk meets a cycle or a missing parent.
fn resolve_wire_subject(raw: &StrMap<RawTopic>, name: &String, r: &RawTopic) -> (w: String)
    requires
        raw@.contains_key(name@),
        raw@[name@] == r.deep_view(),
    ensures
        w@ == wire_subject(raw@, name@),
{
    let ghost rm = raw@;
    proof {
        lemma_entries_map_finite(raw.entries@);
    }
    let mut chain: Vec<String> = Vec::new();
    chain.push(r.subject.clone());
    let mut visited: Vec<String> = Vec::new();
    visited.push(name.clone());
    let mut cur: Option<String> = clone_opt_string(&r.parent);
    let mut whole: bool = true;
    let ghost mut fuel: nat = rm.dom().len();
    let ghost full = subject_chain(rm, name@);
    proof {
        assert(names_view(chain@) =~= seq![r.subject@]);
        assert(names_view(visited@) =~= seq![name@]);
    }
    loop
        invariant_except_break
            rm == raw@,
            rm.dom().finite(),
            full == subject_chain(rm, name@),
            full == prepend_opt(
                names_view(chain@),
                parent_chain(
                    rm,
                    match cur {
                        Some(c) => Some(c@),
                        None => None,
                    },
                    names_view(visited@),
                    fuel,
                ),
            ),
            names_view(visited@).no_duplicates(),
            forall|j: int|
                0 <= j < visited@.len() ==> rm.contains_key(#[trigger] names_view(visited@)[j]),
            visited@.len() + fuel == rm.dom().len() + 1,
            whole,
        ensures
            whole ==> full == Some(names_view(chain@)),
            !whole ==> full is None,
        decreases fuel,
    {
        let ghost vv = names_view(visited@);
        let ghost cv = names_view(chain@);
        match cur {
            None => {
                assert(cv + Seq::<Seq<char>>::empty() =~= cv);
                break;
            },
            Some(p) => {
                if contains_name(&visited, &p) {
                    assert(parent_chain(rm, Some(p@), vv, fuel) is None);
                    whole = false;
                    break;
                }
                visited.push(p.clone());
                let ghost vv2 = names_view(visited@);
                proof {
                    assert(vv2 =~= vv.push(p@));
                }
                match raw.get(&p) {
                    Some(pr) => {
                        proof {
                            assert forall|j: int| 0 <= j < vv2.len() implies rm.contains_key(
                                #[trigger] vv2[j],
                            ) by {
                                if j < vv.len() {
                                    assert(vv2[j] == vv[j]);
                                }
                            }
                            assert(vv2.no_duplicates()) by {
                                assert forall|a: int, b: int| 0 <= a < b < vv2.len() implies vv2[a]
                                    != vv2[b] by {
                                    if b == vv2.len() - 1 {
                                        assert(vv2[a] == vv[a]);
                                    } else {
                                        assert(vv2[a] == vv[a] && vv2[b] == vv[b]);
                                    }
                                }
                            }
                            lemma_visited_bound(rm, vv2);
                        }
                        chain.push(pr.subject.clone());
                        cur = clone_opt_string(&pr.parent);
                        proof {
                            let rest = parent_chain(rm, rm[p@].parent, vv2, (fuel - 1) as nat);
                            assert(names_view(chain@) =~= cv.push(pr.subject@));
                            if let Some(c) = rest {
                                assert(cv + (seq![rm[p@].subject] + c) =~= cv.push(pr.subject@) + c);
                            }
                            fuel = (fuel - 1) as nat;
                        }
                    },
                    None => {
                        whole = false;
                        break;
                    },
                }
            },
        }
    }
    if whole {
        join_reversed(&chain)
    } else {
        r.subject.clone()
    }
}

/// Builds the topic table of `items`: first the raw declarations, then
/// each topic's wire subject by following its parent chain.
pub fn collect_topics(items: &Vec<TopDecl>) -> (topics: StrMap<TopicEntry>)
    ensures
        topics@ == topic_table(items_view(items@)),
{
    let mut raw: StrMap<RawTopic> = StrMap::new();
    gather(items, &mut raw);
    let ghost rm = raw@;
    let mut topics: StrMap<TopicEntry> = StrMap::new();
    let n = raw.entries.len();
    let mut i: usize = 0;
    while i < n
        invariant
            n == raw.entries@.len(),
            i <= n,
            raw.wf(),
            rm == raw@,
            topics.wf(),
            topics@ == Map::new(
                |k: Seq<char>| exists|j: int| 0 <= j < i && raw.entries@[j].key@ == k,
                |k: Seq<char>| entry_of(rm, k),
            ),
        decreases n - i,
    {
        let name = &raw.entries[i].key;
        let r = &raw.entries[i].value;
        proof {
            lemma_entries_map_at(raw.entries@, i as int);
        }
        let wire = resolve_wire_subject(&raw, name, r);
        let ghost before = topics@;
        topics.insert(name.clone(), TopicEntry { payload: r.payload.duplicate(), wire_subject: wire });
        proof {
            assert(topics@ =~= Map::new(
                |k: Seq<char>| exists|j: int| 0 <= j < i + 1 && raw.entries@[j].key@ == k,
                |k: Seq<char>| entry_of(rm, k),
            ));
        }
        i = i + 1;
    }
    proof {
        assert forall|k: Seq<char>| #[trigger] rm.contains_key(k) == (exists|j: int| 0 <= j < n && raw.entries@[j].key@ == k) by {
            lemma_entries_map_dom(raw.entries@, k);
        }
        assert(topics@ =~= topic_table(items_view(items@)));
    }
    topics
}

/// A topic declared with no parent has its own subject as wire subject:
/// its `subject:` field, or its name when it has none.
pub proof fn law_root_topic_wire_subject(items: Seq<SpecTopDecl>, name: Seq<char>)
    requires
        gather_items(items, Map::empty()).contains_key(name),
        gather_items(items, Map::empty())[name].parent is None,
    ensures
        topic_table(items).contains_key(name),
        topic_table(items)[name].wire_subject == gather_items(items, Map::empty())[name].subject,
{
    let raw = gather_items(items, Map::empty());
    assert(subject_chain(raw, name) == Some(seq![raw[name].subject])) by {
        assert(seq![raw[name].subject] + Seq::<Seq<char>>::empty() =~= seq![raw[name].subject]);
    }
    assert(seq![raw[name].subject].reverse() =~= seq![raw[name].subject]);
}

/// A topic whose parent is a declared root topic has as wire subject the
/// parent's own subject, a dot, and its own subject.
pub proof fn law_child_of_root_wire_subject(items: Seq<SpecTopDecl>, name: Seq<char>, parent: Seq<char>)
    requires
        gather_items(items, Map::empty()).contains_key(name),
        gather_items(items, Map::empty())[name].parent == Some(parent),
        parent != name,
        gather_items(items, Map::empty()).contains_key(parent),
        gather_items(items, Map::empty())[parent].parent is None,
    ensures
        topic_table(items).contains_key(name),
        topic_table(items)[name].wire_subject == gather_items(items, Map::empty())[parent].subject
            + seq!['.'] + gather_items(items, Map::empty())[name].subject,
{
    let raw = gather_items(items, Map::empty());
    lemma_gather_items_finite(items, Map::empty());
    vstd::set::axiom_set_contains_len(raw.dom(), name);
    let own = raw[name].subject;
    let up = raw[parent].subject;
    assert(!seq![name].contains(parent)) by {
        if seq![name].contains(parent) {
            assert(seq![name][0] == parent);
        }
    }
    assert(parent_chain(raw, None, seq![name].push(parent), (raw.dom().len() - 1) as nat) == Some(
        Seq::<Seq<char>>::empty(),
    ));
    assert(seq![up] + Seq::<Seq<char>>::empty() =~= seq![up]);
    assert(parent_chain(raw, Some(parent), seq![name], raw.dom().len()) == Some(seq![up]));
    assert(seq![own] + seq![up] =~= seq![own, up]);
    assert(seq![own, up].reverse() =~= seq![up, own]);
    assert(seq![up, own].drop_last() =~= seq![up]);
    assert(dot_join(seq![up]) == up);
    assert(dot_join(seq![up, own]) == up + seq!['.'] + own);
    assert(subject_chain(raw, name) == Some(seq![own] + seq![up]));
    assert(wire_subject(raw, name) == up + seq!['.'] + own);
}

/// A topic whose parent is not declared falls back to its own subject as
/// wire subject.
pub proof fn law_missing_parent_wire_subject(items: Seq<SpecTopDecl>, name: Seq<char>, parent: Seq<char>)
    requires
        gather_items(items, Map::empty()).contains_key(name),
        gather_items(items, Map::empty())[name].parent == Some(parent),
        !gather_items(items, Map::empty()).contains_key(parent),
    ensures
        topic_table(items).contains_key(name),
        topic_table(items)[name].wire_subject == gather_items(items, Map::empty())[name].subject,
{
}

/// Two topics that name each other as parent (or one that names itself)
/// fall back to their own subjects as wire subjects.
pub proof fn law_parent_cycle_wire_subject(items: Seq<SpecTopDecl>, a: Seq<char>, b: Seq<char>)
    requires
        gather_items(items, Map::empty()).contains_key(a),
        gather_items(items, Map::empty()).contains_key(b),
        gather_items(items, Map::empty())[a].parent == Some(b),
        gather_items(items, Map::empty())[b].parent == Some(a),
    ensures
        topic_table(items).contains_key(a),
        topic_table(items)[a].wire_subject == gather_items(items, Map::empty())[a].subject,
        topic_table(items).contains_key(b),
        topic_table(items)[b].wire_subject == gather_items(items, Map::empty())[b].subject,
{
    let raw = gather_items(items, Map::empty());
    let n = raw.dom().len();
    assert(seq![a].contains(a) && seq![b].contains(b)) by {
        assert(seq![a][0] == a && seq![b][0] == b);
    }
    assert(seq![a].push(b).contains(a)) by {
        assert(seq![a].push(b)[0] == a);
    }
    assert(seq![b].push(a).contains(b)) by {
        assert(seq![b].push(a)[0] == b);
    }
    if n > 0 {
        assert(parent_chain(raw, Some(a), seq![a].push(b), (n - 1) as nat) is None);
        assert(parent_chain(raw, Some(b), seq![b].push(a), (n - 1) as nat) is None);
    }
    assert(parent_chain(raw, Some(b), seq![a], n) is None);
    assert(parent_chain(raw, Some(a), seq![b], n) is None);
}

proof fn lemma_gather_items_finite(items: Seq<SpecTopDecl>, acc: RawMap)
    requires
        acc.dom().finite(),
    ensures
        gather_items(items, acc).dom().finite(),
    decreases items,
{
    if items.len() > 0 {
        lemma_gather_items_finite(items.drop_last(), acc);
        lemma_gather_item_finite(items[items.len() - 1], gather_items(items.drop_last(), acc));
    }
}

proof fn lemma_gather_item_finite(item: SpecTopDecl, acc: RawMap)
    requires
        acc.dom().finite(),
    ensures
        gather_item(item, acc).dom().finite(),
    decreases item,
{
    if let SpecTopDecl::Module(m) = item {
        lemma_gather_items_finite(m.items, acc);
    }
}

/// Once the fuel covers every declared name not yet visited, more fuel does
/// not change the walk: it stops for a cycle or a missing parent, never for
/// want of fuel.
pub proof fn lemma_parent_chain_fuel(raw: RawMap, cur: Option<Seq<char>>, visited: Seq<Seq<char>>, fuel: nat)
    requires
        raw.dom().finite(),
        visited.no_duplicates(),
        forall|j: int| 0 <= j < visited.len() ==> raw.contains_key(#[trigger] visited[j]),
        visited.len() + fuel >= raw.dom().len() + 1,
    ensures
        parent_chain(raw, cur, visited, fuel) == parent_chain(raw, cur, visited, fuel + 1),
    decreases fuel,
{
    lemma_visited_bound(raw, visited);
    if let Some(p) = cur {
        if !visited.contains(p) && raw.contains_key(p) {
            let v2 = visited.push(p);
            assert(v2.no_duplicates()) by {
                assert forall|a: int, b: int| 0 <= a < b < v2.len() implies v2[a] != v2[b] by {
                    if b == v2.len() - 1 {
                        assert(v2[a] == visited[a]);
                    } else {
                        assert(v2[a] == visited[a] && v2[b] == visited[b]);
                    }
                }
            }
            assert forall|j: int| 0 <= j < v2.len() implies raw.contains_key(#[trigger] v2[j]) by {
                if j < visited.len() {
                    assert(v2[j] == visited[j]);
                }
            }
            lemma_visited_bound(raw, v2);
            lemma_parent_chain_fuel(raw, raw[p].parent, v2, (fuel - 1) as nat);
        }
    }
}

} // verus!
