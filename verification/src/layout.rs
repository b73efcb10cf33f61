//! The dataflow layout engine: categorizes nodes by id and path, resolves
//! declared input sources into edges, groups nodes into fixed columns, runs
//! barycenter crossing-reduction passes, and stacks each column with
//! per-node heights, centered against the tallest column.
//!
//! Everything here is integer arithmetic over the description's plain
//! values; in particular the barycenter keys are exact rationals, so the
//! whole layout is a function of the description and nothing else.

use crate::model::{NodeCategory, MAX_PORTS};
use crate::text::{
    chars_of, contains_folded, folded_contains, folded_starts_with, lex_lt, lex_lt_chars,
    starts_with_folded,
};
use vstd::prelude::*;

verus! {

/// Largest number of nodes a description may hold; keeps all barycenter
/// arithmetic comfortably inside 64 bits.
pub const MAX_LAYOUT_NODES: usize = 0x10000;

/// Horizontal distance between columns.
pub const COLUMN_SPACING: i64 = 300;

/// Left edge of the leftmost column.
pub const LAYOUT_START_X: i64 = 50;

/// Top edge of the tallest column.
pub const LAYOUT_START_Y: i64 = 50;

/// Base vertical extent of a laid-out node, before its port rows.
pub const ROW_BASE_HEIGHT: i64 = 60;

/// Extra vertical extent per port row.
pub const ROW_PORT_HEIGHT: i64 = 20;

/// Vertical gap between stacked nodes.
pub const ROW_GAP: i64 = 20;

/// Number of logical columns.
pub const COLUMN_COUNT: usize = 5;

/// One node of a dataflow description: its id, an optional path, the
/// declared input ports with their optional source strings, and the
/// declared output ports.
pub struct NodeDesc {
    pub id: String,
    pub path: Option<String>,
    pub inputs: Vec<(String, Option<String>)>,
    pub outputs: Vec<String>,
}

/// The mathematical value of a description node.
pub struct DescAbs {
    pub id: Seq<char>,
    pub path: Option<Seq<char>>,
    pub inputs: Seq<(Seq<char>, Option<Seq<char>>)>,
    pub outputs: Seq<Seq<char>>,
}

/// The abstract value of a description node.
pub open spec fn desc_abs(d: NodeDesc) -> DescAbs {
    DescAbs {
        id: d.id@,
        path: match d.path {
            Some(p) => Some(p@),
            None => None,
        },
        inputs: d.inputs@.map_values(
            |pair: (String, Option<String>)|
                (
                    pair.0@,
                    match pair.1 {
                        Some(s) => Some(s@),
                        None => None,
                    },
                ),
        ),
        outputs: d.outputs@.map_values(|s: String| s@),
    }
}

/// The abstract values of a whole description.
pub open spec fn descs_abs(ds: Seq<NodeDesc>) -> Seq<DescAbs> {
    ds.map_values(|d: NodeDesc| desc_abs(d))
}

/// The category of a node, decided by the first matching rule:
/// case-insensitive prefix and substring patterns on the id, then the
/// literal path `dynamic`, else the default category.
pub open spec fn spec_categorize(id: Seq<char>, path: Option<Seq<char>>) -> NodeCategory {
    if folded_starts_with(id, "mofa-"@) {
        NodeCategory::MoFA
    } else if folded_starts_with(id, "bridge-"@) {
        NodeCategory::Bridge
    } else if folded_contains(id, "controller"@) {
        NodeCategory::Controller
    } else if folded_contains(id, "primespeech"@) || folded_contains(id, "tts"@) {
        NodeCategory::TTS
    } else if folded_contains(id, "segmenter"@) {
        NodeCategory::Segmenter
    } else if folded_contains(id, "student"@) || folded_contains(id, "tutor"@) {
        NodeCategory::MaaS
    } else if path == Some("dynamic"@) {
        NodeCategory::MoFA
    } else {
        NodeCategory::Default
    }
}

/// Categorizes a node by its id and path, as `spec_categorize` describes.
pub fn categorize(id: &str, path: Option<&str>) -> (r: NodeCategory)
    ensures
        r == spec_categorize(id@, match path {
            Some(p) => Some(p@),
            None => None,
        }),
{
    let id_chars = chars_of(id);
    if starts_with_folded(&id_chars, &chars_of("mofa-")) {
        return NodeCategory::MoFA;
    }
    if starts_with_folded(&id_chars, &chars_of("bridge-")) {
        return NodeCategory::Bridge;
    }
    if contains_folded(&id_chars, &chars_of("controller")) {
        return NodeCategory::Controller;
    }
    if contains_folded(&id_chars, &chars_of("primespeech")) || contains_folded(
        &id_chars,
        &chars_of("tts"),
    ) {
        return NodeCategory::TTS;
    }
    if contains_folded(&id_chars, &chars_of("segmenter")) {
        return NodeCategory::Segmenter;
    }
    if contains_folded(&id_chars, &chars_of("student")) || contains_folded(
        &id_chars,
        &chars_of("tutor"),
    ) {
        return NodeCategory::MaaS;
    }
    if let Some(p) = path {
        if crate::model::str_eq(p, "dynamic") {
            return NodeCategory::MoFA;
        }
    }
    NodeCategory::Default
}

/// The fixed logical column of a category, left to right along the data
/// flow.
pub open spec fn spec_column_of(cat: NodeCategory) -> int {
    match cat {
        NodeCategory::MaaS => 0,
        NodeCategory::Bridge => 1,
        NodeCategory::Segmenter => 2,
        NodeCategory::TTS => 3,
        NodeCategory::Controller => 2,
        NodeCategory::MoFA => 4,
        NodeCategory::Default => 2,
    }
}

/// The column of a category, as `spec_column_of` describes.
pub fn column_of(cat: NodeCategory) -> (r: usize)
    ensures
        r == spec_column_of(cat),
        r < COLUMN_COUNT,
{
    match cat {
        NodeCategory::MaaS => 0,
        NodeCategory::Bridge => 1,
        NodeCategory::Segmenter => 2,
        NodeCategory::TTS => 3,
        NodeCategory::Controller => 2,
        NodeCategory::MoFA => 4,
        NodeCategory::Default => 2,
    }
}

/// Number of slash characters in `s`.
pub open spec fn slash_count(s: Seq<char>) -> int
    decreases s.len(),
{
    if s.len() == 0 {
        0
    } else {
        slash_count(s.drop_last()) + if s.last() == '/' {
            1int
        } else {
            0int
        }
    }
}

/// The index of the first slash in `s` (meaningful when one exists).
pub open spec fn first_slash(s: Seq<char>) -> int {
    choose|i: int| 0 <= i < s.len() && s[i] == '/' && forall|j: int| 0 <= j < i ==> s[j] != '/'
}

/// Splits a source string at its slash, provided it holds exactly one: the
/// node id before it and the port id after it. Any other shape means no
/// connection.
pub open spec fn spec_split_source(s: Seq<char>) -> Option<(Seq<char>, Seq<char>)> {
    if slash_count(s) == 1 {
        let i = first_slash(s);
        Some((s.take(i), s.skip(i + 1)))
    } else {
        None
    }
}

/// Splits a source string, as `spec_split_source` describes.
pub fn split_source(s: &Vec<char>) -> (r: Option<(Vec<char>, Vec<char>)>)
    ensures
        match r {
            Some((a, b)) => spec_split_source(s@) == Some((a@, b@)),
            None => spec_split_source(s@) is None,
        },
{
    let mut count: usize = 0;
    let mut pos: usize = 0;
    let mut i: usize = 0;
    while i < s.len()
        invariant
            0 <= i <= s@.len(),
            count == slash_count(s@.take(i as int)),
            count <= i,
            count > 0 ==> 0 <= pos < i && s@[pos as int] == '/' && (forall|j: int|
                0 <= j < pos ==> s@[j] != '/'),
            count == 0 ==> forall|j: int| 0 <= j < i ==> s@[j] != '/',
        decreases s@.len() - i,
    {
        proof {
            assert(s@.take(i + 1).drop_last() =~= s@.take(i as int));
            assert(s@.take(i + 1).last() == s@[i as int]);
        }
        if s[i] == '/' {
            if count == 0 {
                pos = i;
            }
            count += 1;
        }
        i += 1;
    }
    proof {
        assert(s@.take(s@.len() as int) =~= s@);
    }
    if count == 1 {
        proof {
            assert(s@[pos as int] == '/' && forall|j: int| 0 <= j < pos ==> s@[j] != '/');
            let fi = first_slash(s@);
            assert(0 <= fi < s@.len() && s@[fi] == '/' && forall|j: int| 0 <= j < fi ==> s@[j]
                != '/');
            if fi < pos {
                assert(s@[fi] != '/');
            }
            if pos < fi {
                assert(s@[pos as int] != '/');
            }
            assert(fi == pos);
        }
        let mut a: Vec<char> = Vec::new();
        let mut j: usize = 0;
        while j < pos
            invariant
                0 <= j <= pos,
                pos < s@.len(),
                a@ == s@.take(pos as int).take(j as int),
            decreases pos - j,
        {
            a.push(s[j]);
            proof {
                assert(a@ =~= s@.take(pos as int).take(j + 1));
            }
            j += 1;
        }
        proof {
            assert(s@.take(pos as int).take(pos as int) =~= s@.take(pos as int));
        }
        let mut b: Vec<char> = Vec::new();
        let mut k: usize = pos + 1;
        while k < s.len()
            invariant
                pos + 1 <= k <= s@.len(),
                b@ == s@.skip(pos + 1).take(k - pos - 1),
            decreases s@.len() - k,
        {
            b.push(s[k]);
            proof {
                assert(b@ =~= s@.skip(pos + 1).take(k + 1 - pos - 1));
            }
            k += 1;
        }
        proof {
            assert(s@.skip(pos + 1).take(s@.len() - pos - 1) =~= s@.skip(pos + 1));
        }
        Some((a, b))
    } else {
        None
    }
}

/// The index the id map resolves `id` to: the last description node with
/// that id, since later entries overwrite earlier ones in the map.
pub open spec fn last_index_of(ids: Seq<Seq<char>>, id: Seq<char>) -> Option<usize>
    decreases ids.len(),
{
    if ids.len() == 0 {
        None
    } else if ids.last() == id {
        Some((ids.len() - 1) as usize)
    } else {
        last_index_of(ids.drop_last(), id)
    }
}


/// The mathematical value of a resolved edge: endpoints and port names.
pub struct EdgeAbs {
    pub from: usize,
    pub from_port: Seq<char>,
    pub to: usize,
    pub to_port: Seq<char>,
}

/// The abstract value of an edge connection.
pub open spec fn edge_abs(e: crate::model::EdgeConnection) -> EdgeAbs {
    EdgeAbs { from: e.from_node, from_port: e.from_port@, to: e.to_node, to_port: e.to_port@ }
}

/// The ids of a description, in order.
pub open spec fn ids_of(ds: Seq<DescAbs>) -> Seq<Seq<char>> {
    ds.map_values(|d: DescAbs| d.id)
}

/// The edges one node's inputs contribute, in input order: an input with a
/// well-formed source string naming a known node becomes an edge from that
/// node's (last) index to this node; everything else is silently dropped.
pub open spec fn inputs_edges(
    inputs: Seq<(Seq<char>, Option<Seq<char>>)>,
    ids: Seq<Seq<char>>,
    t: usize,
) -> Seq<EdgeAbs>
    decreases inputs.len(),
{
    if inputs.len() == 0 {
        Seq::empty()
    } else {
        let rest = inputs_edges(inputs.drop_last(), ids, t);
        let (pname, src) = inputs.last();
        match src {
            None => rest,
            Some(sv) => match spec_split_source(sv) {
                None => rest,
                Some((fid, fport)) => match last_index_of(ids, fid) {
                    None => rest,
                    Some(fi) => rest.push(
                        EdgeAbs { from: fi, from_port: fport, to: t, to_port: pname },
                    ),
                },
            },
        }
    }
}

/// All edges of a description, node by node from index `t` on.
pub open spec fn edges_abs_from(ds: Seq<DescAbs>, ids: Seq<Seq<char>>, t: int) -> Seq<EdgeAbs>
    decreases ds.len() - t,
{
    if t < 0 || t >= ds.len() {
        Seq::empty()
    } else {
        inputs_edges(ds[t].inputs, ids, t as usize) + edges_abs_from(ds, ids, t + 1)
    }
}

/// All edges of a description.
pub open spec fn spec_layout_edges(ds: Seq<DescAbs>) -> Seq<EdgeAbs> {
    edges_abs_from(ds, ids_of(ds), 0)
}

/// Resolves `id` against the description, as `last_index_of` over the ids
/// describes.
fn find_id_index(descs: &Vec<NodeDesc>, id: &Vec<char>) -> (r: Option<usize>)
    ensures
        r == last_index_of(ids_of(descs_abs(descs@)), id@),
        r matches Some(i) ==> i < descs@.len(),
{
    let ghost ids = ids_of(descs_abs(descs@));
    let mut j: usize = descs.len();
    proof {
        assert(ids.take(descs@.len() as int) =~= ids);
    }
    while j > 0
        invariant
            0 <= j <= descs@.len(),
            ids == ids_of(descs_abs(descs@)),
            ids.len() == descs@.len(),
            last_index_of(ids, id@) == last_index_of(ids.take(j as int), id@),
        decreases j,
    {
        proof {
            assert(ids.take(j as int).drop_last() =~= ids.take(j - 1));
            assert(ids.take(j as int).last() == ids[j - 1]);
        }
        let cand = chars_of(descs[j - 1].id.as_str());
        if crate::text::chars_eq(&cand, id) {
            return Some(j - 1);
        }
        j -= 1;
    }
    proof {
        assert(ids.take(0) =~= Seq::<Seq<char>>::empty());
    }
    None
}

/// Resolves every declared input source of the description into edges, in
/// node order and input order, dropping inputs without exactly one slash in
/// the source and sources naming unknown nodes.
pub fn resolve_edges(descs: &Vec<NodeDesc>) -> (r: Vec<crate::model::EdgeConnection>)
    ensures
        r@.map_values(|e: crate::model::EdgeConnection| edge_abs(e)) == spec_layout_edges(
            descs_abs(descs@),
        ),
        forall|i: int|
            0 <= i < r@.len() ==> {
                &&& (#[trigger] r@[i]).style == crate::model::EdgeStyle::Solid
                &&& r@[i].width == 2
                &&& r@[i].animated == false
                &&& r@[i].label@ == Seq::<char>::empty()
                &&& r@[i].marker_end == crate::model::EdgeMarker::Arrow
                &&& r@[i].from_node < descs@.len()
                &&& r@[i].to_node < descs@.len()
            },
{
    let ghost ds = descs_abs(descs@);
    let ghost ids = ids_of(ds);
    let mut r: Vec<crate::model::EdgeConnection> = Vec::new();
    let mut t: usize = 0;
    while t < descs.len()
        invariant
            0 <= t <= descs@.len(),
            ds == descs_abs(descs@),
            ids == ids_of(ds),
            r@.map_values(|e: crate::model::EdgeConnection| edge_abs(e)) == edges_abs_upto(
                ds,
                ids,
                t as int,
            ),
            forall|i: int|
                0 <= i < r@.len() ==> {
                    &&& (#[trigger] r@[i]).style == crate::model::EdgeStyle::Solid
                    &&& r@[i].width == 2
                    &&& r@[i].animated == false
                    &&& r@[i].label@ == Seq::<char>::empty()
                    &&& r@[i].marker_end == crate::model::EdgeMarker::Arrow
                    &&& r@[i].from_node < descs@.len()
                    &&& r@[i].to_node < descs@.len()
                },
        decreases descs@.len() - t,
    {
        let ghost dabs = ds[t as int];
        let mut k: usize = 0;
        proof {
            assert(dabs.inputs.take(0) =~= Seq::<(Seq<char>, Option<Seq<char>>)>::empty());
            assert(inputs_edges(dabs.inputs.take(0), ids, t) =~= Seq::<EdgeAbs>::empty());
            assert(r@.map_values(|e: crate::model::EdgeConnection| edge_abs(e)) =~= edges_abs_upto(
                ds,
                ids,
                t as int,
            ) + inputs_edges(dabs.inputs.take(0), ids, t));
        }
        while k < descs[t].inputs.len()
            invariant
                0 <= t < descs@.len(),
                0 <= k <= descs@[t as int].inputs@.len(),
                ds == descs_abs(descs@),
                ids == ids_of(ds),
                dabs == ds[t as int],
                dabs.inputs.len() == descs@[t as int].inputs@.len(),
                r@.map_values(|e: crate::model::EdgeConnection| edge_abs(e)) == edges_abs_upto(
                    ds,
                    ids,
                    t as int,
                ) + inputs_edges(dabs.inputs.take(k as int), ids, t),
                forall|i: int|
                    0 <= i < r@.len() ==> {
                        &&& (#[trigger] r@[i]).style == crate::model::EdgeStyle::Solid
                        &&& r@[i].width == 2
                        &&& r@[i].animated == false
                        &&& r@[i].label@ == Seq::<char>::empty()
                        &&& r@[i].marker_end == crate::model::EdgeMarker::Arrow
                        &&& r@[i].from_node < descs@.len()
                        &&& r@[i].to_node < descs@.len()
                    },
            decreases descs@[t as int].inputs@.len() - k,
        {
            proof {
                assert(dabs.inputs.take(k + 1).drop_last() =~= dabs.inputs.take(k as int));
                assert(dabs.inputs.take(k + 1).last() == dabs.inputs[k as int]);
                assert(dabs.inputs[k as int] == (
                    descs@[t as int].inputs@[k as int].0@,
                    match descs@[t as int].inputs@[k as int].1 {
                        Some(s) => Some(s@),
                        None => None,
                    },
                ));
            }
            let (pname, src) = &descs[t].inputs[k];
            if let Some(sv) = src {
                let sv_chars = chars_of(sv.as_str());
                if let Some((fid, fport)) = split_source(&sv_chars) {
                    if let Some(fi) = find_id_index(descs, &fid) {
                        let fport_s = crate::text::string_from_chars(&fport);
                        let e = crate::model::EdgeConnection::new_with_ports(
                            fi,
                            fport_s.as_str(),
                            t,
                            pname.as_str(),
                        );
                        let ghost pre = r@;
                        r.push(e);
                        proof {
                            assert(r@.map_values(
                                |e: crate::model::EdgeConnection| edge_abs(e),
                            ) =~= pre.map_values(
                                |e: crate::model::EdgeConnection| edge_abs(e),
                            ).push(edge_abs(e)));
                            assert(edge_abs(e) == (EdgeAbs {
                                from: fi,
                                from_port: fport@,
                                to: t,
                                to_port: pname@,
                            }));
                        }
                    }
                }
            }
            k += 1;
        }
        proof {
            assert(dabs.inputs.take(descs@[t as int].inputs@.len() as int) =~= dabs.inputs);
            assert(edges_abs_upto(ds, ids, t + 1) == edges_abs_upto(ds, ids, t as int)
                + inputs_edges(ds[t as int].inputs, ids, t));
        }
        t += 1;
    }
    proof {
        lemma_edges_upto_all(ds, ids, descs@.len() as int);
    }
    r
}

/// The per-node prefix decomposition of the full edge list: the edges of
/// the first `t` nodes followed by the edges of the rest make all edges.
proof fn lemma_edges_upto_all(ds: Seq<DescAbs>, ids: Seq<Seq<char>>, t: int)
    requires
        0 <= t <= ds.len(),
    ensures
        edges_abs_upto(ds, ids, t) + edges_abs_from(ds, ids, t) == edges_abs_from(ds, ids, 0),
    decreases t,
{
    if t == 0 {
        assert(edges_abs_upto(ds, ids, 0) + edges_abs_from(ds, ids, 0) =~= edges_abs_from(
            ds,
            ids,
            0,
        ));
    } else {
        lemma_edges_upto_all(ds, ids, t - 1);
        assert(edges_abs_upto(ds, ids, t) + edges_abs_from(ds, ids, t) =~= edges_abs_upto(
            ds,
            ids,
            t - 1,
        ) + (inputs_edges(ds[t - 1].inputs, ids, (t - 1) as usize) + edges_abs_from(ds, ids, t)));
        assert(inputs_edges(ds[t - 1].inputs, ids, (t - 1) as usize) + edges_abs_from(ds, ids, t)
            =~= edges_abs_from(ds, ids, t - 1));
    }
}

/// All edges of the nodes before index `t`.
pub open spec fn edges_abs_upto(ds: Seq<DescAbs>, ids: Seq<Seq<char>>, t: int) -> Seq<EdgeAbs>
    decreases t,
{
    if t <= 0 {
        Seq::empty()
    } else {
        edges_abs_upto(ds, ids, t - 1) + inputs_edges(ds[t - 1].inputs, ids, (t - 1) as usize)
    }
}


/// The column of every description node.
pub open spec fn cols_of(ds: Seq<DescAbs>) -> Seq<int> {
    ds.map_values(|d: DescAbs| spec_column_of(spec_categorize(d.id, d.path)))
}

/// The node indices living in column `c`, in index order, from `i` on.
pub open spec fn members_from(cols: Seq<int>, c: int, i: int) -> Seq<usize>
    decreases cols.len() - i,
{
    if i < 0 || i >= cols.len() {
        Seq::empty()
    } else if cols[i] == c {
        seq![i as usize] + members_from(cols, c, i + 1)
    } else {
        members_from(cols, c, i + 1)
    }
}

/// Inserts `x` into a sorted index list, ordered by ids: `x` goes in front
/// of the first entry whose id is strictly greater, so entries with equal
/// ids keep their relative order.
pub open spec fn insert_by_id(x: usize, s: Seq<usize>, ids: Seq<Seq<char>>) -> Seq<usize>
    decreases s.len(),
{
    if s.len() == 0 {
        seq![x]
    } else if lex_lt(ids[x as int], ids[s[0] as int]) {
        seq![x] + s
    } else {
        seq![s[0]] + insert_by_id(x, s.drop_first(), ids)
    }
}

/// Stable insertion sort of an index list by node id.
pub open spec fn sort_by_id(s: Seq<usize>, ids: Seq<Seq<char>>) -> Seq<usize>
    decreases s.len(),
{
    if s.len() == 0 {
        s
    } else {
        insert_by_id(s.last(), sort_by_id(s.drop_last(), ids), ids)
    }
}

/// Strict order on exact rational keys (numerator, positive denominator).
pub open spec fn key_lt(a: (int, int), b: (int, int)) -> bool {
    a.0 * b.1 < b.0 * a.1
}

/// Inserts `x` into a sorted index list, ordered by per-node rational keys;
/// stable like `insert_by_id`.
pub open spec fn insert_by_key(x: usize, s: Seq<usize>, keys: Seq<(int, int)>) -> Seq<usize>
    decreases s.len(),
{
    if s.len() == 0 {
        seq![x]
    } else if key_lt(keys[x as int], keys[s[0] as int]) {
        seq![x] + s
    } else {
        seq![s[0]] + insert_by_key(x, s.drop_first(), keys)
    }
}

/// Stable insertion sort of an index list by per-node rational keys.
pub open spec fn sort_by_key(s: Seq<usize>, keys: Seq<(int, int)>) -> Seq<usize>
    decreases s.len(),
{
    if s.len() == 0 {
        s
    } else {
        insert_by_key(s.last(), sort_by_key(s.drop_last(), keys), keys)
    }
}

/// Where the insertion lands: inserting before position `p` (the first
/// entry greater than `x`) splits the list there.
proof fn lemma_insert_by_id_at(x: usize, s: Seq<usize>, ids: Seq<Seq<char>>, p: int)
    requires
        0 <= p <= s.len(),
        forall|q: int| 0 <= q < p ==> !lex_lt(ids[x as int], ids[#[trigger] s[q] as int]),
        p < s.len() ==> lex_lt(ids[x as int], ids[s[p] as int]),
    ensures
        insert_by_id(x, s, ids) == s.take(p) + seq![x] + s.skip(p),
    decreases p,
{
    if p == 0 {
        if s.len() == 0 {
            assert(insert_by_id(x, s, ids) =~= s.take(0) + seq![x] + s.skip(0));
        } else {
            assert(lex_lt(ids[x as int], ids[s[0] as int]));
            assert(insert_by_id(x, s, ids) =~= s.take(0) + seq![x] + s.skip(0));
        }
    } else {
        assert(!lex_lt(ids[x as int], ids[s[0] as int]));
        let sd = s.drop_first();
        assert forall|q: int| 0 <= q < p - 1 implies !lex_lt(
            ids[x as int],
            ids[#[trigger] sd[q] as int],
        ) by {
            assert(sd[q] == s[q + 1]);
        }
        assert(p - 1 < sd.len() ==> lex_lt(ids[x as int], ids[sd[p - 1] as int]));
        lemma_insert_by_id_at(x, sd, ids, p - 1);
        assert(insert_by_id(x, s, ids) =~= s.take(p) + seq![x] + s.skip(p));
    }
}

/// Where the insertion lands for rational keys.
proof fn lemma_insert_by_key_at(x: usize, s: Seq<usize>, keys: Seq<(int, int)>, p: int)
    requires
        0 <= p <= s.len(),
        forall|q: int| 0 <= q < p ==> !key_lt(keys[x as int], keys[#[trigger] s[q] as int]),
        p < s.len() ==> key_lt(keys[x as int], keys[s[p] as int]),
    ensures
        insert_by_key(x, s, keys) == s.take(p) + seq![x] + s.skip(p),
    decreases p,
{
    if p == 0 {
        if s.len() == 0 {
            assert(insert_by_key(x, s, keys) =~= s.take(0) + seq![x] + s.skip(0));
        } else {
            assert(key_lt(keys[x as int], keys[s[0] as int]));
            assert(insert_by_key(x, s, keys) =~= s.take(0) + seq![x] + s.skip(0));
        }
    } else {
        assert(!key_lt(keys[x as int], keys[s[0] as int]));
        let sd = s.drop_first();
        assert forall|q: int| 0 <= q < p - 1 implies !key_lt(
            keys[x as int],
            keys[#[trigger] sd[q] as int],
        ) by {
            assert(sd[q] == s[q + 1]);
        }
        assert(p - 1 < sd.len() ==> key_lt(keys[x as int], keys[sd[p - 1] as int]));
        lemma_insert_by_key_at(x, sd, keys, p - 1);
        assert(insert_by_key(x, s, keys) =~= s.take(p) + seq![x] + s.skip(p));
    }
}

/// The indices of the nodes in column `c`, in index order.
fn column_members(cols: &Vec<usize>, c: usize) -> (r: Vec<usize>)
    ensures
        r@ == members_from(cols@.map_values(|v: usize| v as int), c as int, 0),
        r@.len() <= cols@.len(),
        forall|j: int| 0 <= j < r@.len() ==> #[trigger] r@[j] < cols@.len(),
{
    let ghost colsi = cols@.map_values(|v: usize| v as int);
    let mut r: Vec<usize> = Vec::new();
    let mut i: usize = 0;
    while i < cols.len()
        invariant
            0 <= i <= cols@.len(),
            colsi == cols@.map_values(|v: usize| v as int),
            members_from(colsi, c as int, 0) == r@ + members_from(colsi, c as int, i as int),
            r@.len() <= i,
            forall|j: int| 0 <= j < r@.len() ==> #[trigger] r@[j] < cols@.len(),
        decreases cols@.len() - i,
    {
        if cols[i] == c {
            let ghost pre = r@;
            r.push(i);
            proof {
                assert(pre + (seq![i as usize] + members_from(colsi, c as int, i + 1)) =~= r@
                    + members_from(colsi, c as int, i + 1));
            }
        }
        i += 1;
    }
    proof {
        assert(members_from(colsi, c as int, cols@.len() as int) =~= Seq::<usize>::empty());
        assert(r@ + Seq::<usize>::empty() =~= r@);
    }
    r
}

/// Sorts an index list by node id, as `sort_by_id` describes.
fn do_sort_by_id(s: &Vec<usize>, id_chars: &Vec<Vec<char>>, Ghost(ids): Ghost<Seq<Seq<char>>>) -> (r:
    Vec<usize>)
    requires
        id_chars@.len() == ids.len(),
        forall|j: int| 0 <= j < ids.len() ==> (#[trigger] id_chars@[j])@ == ids[j],
        forall|j: int| 0 <= j < s@.len() ==> #[trigger] s@[j] < ids.len(),
    ensures
        r@ == sort_by_id(s@, ids),
        r@.len() == s@.len(),
        forall|j: int| 0 <= j < r@.len() ==> #[trigger] r@[j] < ids.len(),
{
    let mut out: Vec<usize> = Vec::new();
    let mut j: usize = 0;
    proof {
        assert(s@.take(0) =~= Seq::<usize>::empty());
    }
    while j < s.len()
        invariant
            0 <= j <= s@.len(),
            id_chars@.len() == ids.len(),
            forall|q: int| 0 <= q < ids.len() ==> (#[trigger] id_chars@[q])@ == ids[q],
            forall|q: int| 0 <= q < s@.len() ==> #[trigger] s@[q] < ids.len(),
            out@ == sort_by_id(s@.take(j as int), ids),
            out@.len() == j,
            forall|q: int| 0 <= q < out@.len() ==> #[trigger] out@[q] < ids.len(),
        decreases s@.len() - j,
    {
        let x = s[j];
        let mut p: usize = 0;
        while p < out.len() && !lex_lt_chars(&id_chars[x], &id_chars[out[p]])
            invariant
                0 <= p <= out@.len(),
                x < ids.len(),
                id_chars@.len() == ids.len(),
                forall|q: int| 0 <= q < ids.len() ==> (#[trigger] id_chars@[q])@ == ids[q],
                forall|q: int| 0 <= q < out@.len() ==> #[trigger] out@[q] < ids.len(),
                forall|q: int|
                    0 <= q < p ==> !lex_lt(ids[x as int], ids[#[trigger] out@[q] as int]),
            decreases out@.len() - p,
        {
            p += 1;
        }
        let ghost pre = out@;
        out.insert(p, x);
        proof {
            lemma_insert_by_id_at(x, pre, ids, p as int);
            assert(out@ =~= pre.take(p as int) + seq![x] + pre.skip(p as int));
            assert(s@.take(j + 1).drop_last() =~= s@.take(j as int));
            assert(s@.take(j + 1).last() == s@[j as int]);
        }
        j += 1;
    }
    proof {
        assert(s@.take(s@.len() as int) =~= s@);
    }
    out
}

/// Sorts an index list by per-node rational keys, as `sort_by_key`
/// describes.
fn do_sort_by_key(s: &Vec<usize>, keys: &Vec<(i64, i64)>) -> (r: Vec<usize>)
    requires
        forall|j: int| 0 <= j < s@.len() ==> #[trigger] s@[j] < keys@.len(),
        forall|j: int|
            0 <= j < keys@.len() ==> -0x1_0000_0000_0000 <= (#[trigger] keys@[j]).0
                <= 0x1_0000_0000_0000 && 1 <= keys@[j].1 <= 0x1_0000_0000,
    ensures
        r@ == sort_by_key(s@, keys_abs(keys@)),
        r@.len() == s@.len(),
        forall|j: int| 0 <= j < r@.len() ==> #[trigger] r@[j] < keys@.len(),
{
    let ghost ka = keys_abs(keys@);
    let mut out: Vec<usize> = Vec::new();
    let mut j: usize = 0;
    proof {
        assert(s@.take(0) =~= Seq::<usize>::empty());
    }
    while j < s.len()
        invariant
            0 <= j <= s@.len(),
            ka == keys_abs(keys@),
            ka.len() == keys@.len(),
            forall|q: int| 0 <= q < s@.len() ==> #[trigger] s@[q] < keys@.len(),
            forall|q: int|
                0 <= q < keys@.len() ==> -0x1_0000_0000_0000 <= (#[trigger] keys@[q]).0
                    <= 0x1_0000_0000_0000 && 1 <= keys@[q].1 <= 0x1_0000_0000,
            out@ == sort_by_key(s@.take(j as int), ka),
            out@.len() == j,
            forall|q: int| 0 <= q < out@.len() ==> #[trigger] out@[q] < keys@.len(),
        decreases s@.len() - j,
    {
        let x = s[j];
        let mut p: usize = 0;
        while p < out.len() && !key_lt_exec(keys[x], keys[out[p]])
            invariant
                0 <= p <= out@.len(),
                x < keys@.len(),
                ka == keys_abs(keys@),
                ka.len() == keys@.len(),
                forall|q: int| 0 <= q < out@.len() ==> #[trigger] out@[q] < keys@.len(),
                forall|q: int|
                    0 <= q < keys@.len() ==> -0x1_0000_0000_0000 <= (#[trigger] keys@[q]).0
                        <= 0x1_0000_0000_0000 && 1 <= keys@[q].1 <= 0x1_0000_0000,
                forall|q: int| 0 <= q < p ==> !key_lt(ka[x as int], ka[#[trigger] out@[q] as int]),
            decreases out@.len() - p,
        {
            p += 1;
        }
        let ghost pre = out@;
        out.insert(p, x);
        proof {
            lemma_insert_by_key_at(x, pre, ka, p as int);
            assert(out@ =~= pre.take(p as int) + seq![x] + pre.skip(p as int));
            assert(s@.take(j + 1).drop_last() =~= s@.take(j as int));
            assert(s@.take(j + 1).last() == s@[j as int]);
        }
        j += 1;
    }
    proof {
        assert(s@.take(s@.len() as int) =~= s@);
    }
    out
}

/// The mathematical value of an exec key vector.
pub open spec fn keys_abs(keys: Seq<(i64, i64)>) -> Seq<(int, int)> {
    keys.map_values(|k: (i64, i64)| (k.0 as int, k.1 as int))
}

/// Exact rational comparison of two bounded keys.
fn key_lt_exec(a: (i64, i64), b: (i64, i64)) -> (r: bool)
    requires
        -0x1_0000_0000_0000 <= a.0 <= 0x1_0000_0000_0000,
        -0x1_0000_0000_0000 <= b.0 <= 0x1_0000_0000_0000,
        1 <= a.1 <= 0x1_0000_0000,
        1 <= b.1 <= 0x1_0000_0000,
    ensures
        r == key_lt((a.0 as int, a.1 as int), (b.0 as int, b.1 as int)),
{
    proof {
        assert((a.0 as i128) * (b.1 as i128) <= 0x1_0000_0000_0000 * 0x1_0000_0000 && (a.0 as i128)
            * (b.1 as i128) >= -0x1_0000_0000_0000 * 0x1_0000_0000) by (nonlinear_arith)
            requires
                -0x1_0000_0000_0000 <= a.0 as i128 <= 0x1_0000_0000_0000,
                1 <= b.1 as i128 <= 0x1_0000_0000,
        ;
        assert((b.0 as i128) * (a.1 as i128) <= 0x1_0000_0000_0000 * 0x1_0000_0000 && (b.0 as i128)
            * (a.1 as i128) >= -0x1_0000_0000_0000 * 0x1_0000_0000) by (nonlinear_arith)
            requires
                -0x1_0000_0000_0000 <= b.0 as i128 <= 0x1_0000_0000_0000,
                1 <= a.1 as i128 <= 0x1_0000_0000,
        ;
    }
    let l = (a.0 as i128) * (b.1 as i128);
    let rgt = (b.0 as i128) * (a.1 as i128);
    l < rgt
}


/// Largest number of edges a description can produce.
pub const MAX_LAYOUT_EDGES: usize = 0x1000_0000;

/// The running (sum, count) of the current rows of `v`'s incoming
/// neighbors in strictly earlier columns, over the given edges.
pub open spec fn bary_acc_in(
    edges: Seq<EdgeAbs>,
    pos: Seq<int>,
    cols: Seq<int>,
    v: int,
    c: int,
) -> (int, int)
    decreases edges.len(),
{
    if edges.len() == 0 {
        (0, 0)
    } else {
        let rest = bary_acc_in(edges.drop_last(), pos, cols, v, c);
        let e = edges.last();
        if e.to == v && e.from < cols.len() && cols[e.from as int] < c {
            (rest.0 + pos[e.from as int], rest.1 + 1)
        } else {
            rest
        }
    }
}

/// The running (sum, count) of the current rows of `v`'s outgoing
/// neighbors in strictly later columns.
pub open spec fn bary_acc_out(
    edges: Seq<EdgeAbs>,
    pos: Seq<int>,
    cols: Seq<int>,
    v: int,
    c: int,
) -> (int, int)
    decreases edges.len(),
{
    if edges.len() == 0 {
        (0, 0)
    } else {
        let rest = bary_acc_out(edges.drop_last(), pos, cols, v, c);
        let e = edges.last();
        if e.from == v && e.to < cols.len() && cols[e.to as int] > c {
            (rest.0 + pos[e.to as int], rest.1 + 1)
        } else {
            rest
        }
    }
}

/// The barycenter sort key of node `v` for a pass over column `c`: the mean
/// row of its neighbors as an exact rational, or its own current row when
/// it has none.
pub open spec fn key_of(
    edges: Seq<EdgeAbs>,
    pos: Seq<int>,
    cols: Seq<int>,
    v: int,
    c: int,
    forward: bool,
) -> (int, int) {
    let acc = if forward {
        bary_acc_in(edges, pos, cols, v, c)
    } else {
        bary_acc_out(edges, pos, cols, v, c)
    };
    if acc.1 == 0 {
        (pos[v], 1)
    } else {
        acc
    }
}

/// The keys of every node for a pass over column `c`.
pub open spec fn keys_for(
    edges: Seq<EdgeAbs>,
    pos: Seq<int>,
    cols: Seq<int>,
    c: int,
    forward: bool,
) -> Seq<(int, int)> {
    Seq::new(pos.len(), |v: int| key_of(edges, pos, cols, v, c, forward))
}

/// Rows handed back to positions: the `r`-th entry of `members` gets row
/// `r`.
pub open spec fn reassign(pos: Seq<int>, members: Seq<usize>) -> Seq<int>
    decreases members.len(),
{
    if members.len() == 0 {
        pos
    } else {
        reassign(pos, members.drop_last()).update(
            members.last() as int,
            members.len() - 1,
        )
    }
}

/// Computes the barycenter keys of every node for a pass over column `c`.
fn compute_keys(
    edges: &Vec<crate::model::EdgeConnection>,
    pos: &Vec<i64>,
    cols: &Vec<usize>,
    c: usize,
    forward: bool,
) -> (r: Vec<(i64, i64)>)
    requires
        edges@.len() <= MAX_LAYOUT_EDGES,
        pos@.len() == cols@.len(),
        pos@.len() <= MAX_LAYOUT_NODES,
        forall|i: int| 0 <= i < pos@.len() ==> 0 <= #[trigger] pos@[i] <= MAX_LAYOUT_NODES,
        forall|i: int|
            0 <= i < edges@.len() ==> (#[trigger] edges@[i]).from_node < pos@.len()
                && edges@[i].to_node < pos@.len(),
    ensures
        r@.len() == pos@.len(),
        keys_abs(r@) == keys_for(
            edges@.map_values(|e: crate::model::EdgeConnection| edge_abs(e)),
            pos@.map_values(|p: i64| p as int),
            cols@.map_values(|v: usize| v as int),
            c as int,
            forward,
        ),
        forall|j: int|
            0 <= j < r@.len() ==> -0x1_0000_0000_0000 <= (#[trigger] r@[j]).0 <= 0x1_0000_0000_0000
                && 1 <= r@[j].1 <= 0x1_0000_0000,
{
    let ghost ea = edges@.map_values(|e: crate::model::EdgeConnection| edge_abs(e));
    let ghost posi = pos@.map_values(|p: i64| p as int);
    let ghost colsi = cols@.map_values(|v: usize| v as int);
    let mut r: Vec<(i64, i64)> = Vec::new();
    let mut v: usize = 0;
    let n = pos.len();
    while v < n
        invariant
            0 <= v <= n,
            n == pos@.len(),
            pos@.len() == cols@.len(),
            pos@.len() <= MAX_LAYOUT_NODES,
            edges@.len() <= MAX_LAYOUT_EDGES,
            forall|i: int| 0 <= i < pos@.len() ==> 0 <= #[trigger] pos@[i] <= MAX_LAYOUT_NODES,
            forall|i: int|
                0 <= i < edges@.len() ==> (#[trigger] edges@[i]).from_node < pos@.len()
                    && edges@[i].to_node < pos@.len(),
            ea == edges@.map_values(|e: crate::model::EdgeConnection| edge_abs(e)),
            posi == pos@.map_values(|p: i64| p as int),
            colsi == cols@.map_values(|x: usize| x as int),
            r@.len() == v,
            forall|j: int|
                0 <= j < v ==> keys_abs(r@)[j] == key_of(ea, posi, colsi, j, c as int, forward),
            forall|j: int|
                0 <= j < r@.len() ==> -0x1_0000_0000_0000 <= (#[trigger] r@[j]).0
                    <= 0x1_0000_0000_0000 && 1 <= r@[j].1 <= 0x1_0000_0000,
        decreases n - v,
    {
        let mut sum: i64 = 0;
        let mut cnt: i64 = 0;
        let mut i: usize = 0;
        proof {
            assert(ea.take(0) =~= Seq::<EdgeAbs>::empty());
        }
        while i < edges.len()
            invariant
                0 <= i <= edges@.len(),
                v < pos@.len(),
                pos@.len() == cols@.len(),
                pos@.len() <= MAX_LAYOUT_NODES,
                edges@.len() <= MAX_LAYOUT_EDGES,
                forall|q: int| 0 <= q < pos@.len() ==> 0 <= #[trigger] pos@[q] <= MAX_LAYOUT_NODES,
                forall|q: int|
                    0 <= q < edges@.len() ==> (#[trigger] edges@[q]).from_node < pos@.len()
                        && edges@[q].to_node < pos@.len(),
                ea == edges@.map_values(|e: crate::model::EdgeConnection| edge_abs(e)),
                posi == pos@.map_values(|p: i64| p as int),
                colsi == cols@.map_values(|x: usize| x as int),
                (sum as int, cnt as int) == if forward {
                    bary_acc_in(ea.take(i as int), posi, colsi, v as int, c as int)
                } else {
                    bary_acc_out(ea.take(i as int), posi, colsi, v as int, c as int)
                },
                0 <= cnt <= i,
                0 <= sum,
                sum <= cnt * (MAX_LAYOUT_NODES as i64),
            decreases edges@.len() - i,
        {
            proof {
                assert(ea.take(i + 1).drop_last() =~= ea.take(i as int));
                assert(ea.take(i + 1).last() == ea[i as int]);
                assert(cnt * (MAX_LAYOUT_NODES as i64) + MAX_LAYOUT_NODES == (cnt + 1) * (
                MAX_LAYOUT_NODES as i64)) by (nonlinear_arith);
                assert(cnt * (MAX_LAYOUT_NODES as i64) <= MAX_LAYOUT_EDGES * (
                MAX_LAYOUT_NODES as i64)) by (nonlinear_arith)
                    requires
                        0 <= cnt <= MAX_LAYOUT_EDGES as i64,
                ;
            }
            let e = &edges[i];
            if forward {
                if e.to_node == v && cols[e.from_node] < c {
                    sum = sum + pos[e.from_node];
                    cnt = cnt + 1;
                }
            } else {
                if e.from_node == v && cols[e.to_node] > c {
                    sum = sum + pos[e.to_node];
                    cnt = cnt + 1;
                }
            }
            i += 1;
        }
        proof {
            assert(ea.take(edges@.len() as int) =~= ea);
            assert(cnt * (MAX_LAYOUT_NODES as i64) <= MAX_LAYOUT_EDGES * (
            MAX_LAYOUT_NODES as i64)) by (nonlinear_arith)
                requires
                    0 <= cnt <= MAX_LAYOUT_EDGES as i64,
            ;
        }
        let key: (i64, i64) = if cnt == 0 {
            (pos[v], 1)
        } else {
            (sum, cnt)
        };
        let ghost pre = r@;
        r.push(key);
        proof {
            assert(keys_abs(r@) =~= keys_abs(pre).push((key.0 as int, key.1 as int)));
        }
        v += 1;
    }
    proof {
        assert(keys_abs(r@) =~= keys_for(ea, posi, colsi, c as int, forward));
    }
    r
}

/// Replaces element `i` of a vector.
fn vec_set<T>(v: &mut Vec<T>, i: usize, x: T)
    requires
        i < old(v)@.len(),
    ensures
        final(v)@ == old(v)@.update(i as int, x),
{
    let _ = v.remove(i);
    v.insert(i, x);
    proof {
        assert(v@ =~= old(v)@.update(i as int, x));
    }
}

/// Writes the rows of a sorted column back into the position vector, as
/// `reassign` describes.
fn apply_rows(pos: &mut Vec<i64>, members: &Vec<usize>)
    requires
        forall|j: int| 0 <= j < members@.len() ==> #[trigger] members@[j] < old(pos)@.len(),
        members@.len() <= MAX_LAYOUT_NODES,
        old(pos)@.len() <= MAX_LAYOUT_NODES,
        forall|i: int| 0 <= i < old(pos)@.len() ==> 0 <= #[trigger] old(pos)@[i] <= MAX_LAYOUT_NODES,
    ensures
        final(pos)@.len() == old(pos)@.len(),
        final(pos)@.map_values(|p: i64| p as int) == reassign(
            old(pos)@.map_values(|p: i64| p as int),
            members@,
        ),
        forall|i: int| 0 <= i < final(pos)@.len() ==> 0 <= #[trigger] final(pos)@[i]
            <= MAX_LAYOUT_NODES,
{
    let ghost pos0 = old(pos)@.map_values(|p: i64| p as int);
    let mut r: usize = 0;
    proof {
        assert(members@.take(0) =~= Seq::<usize>::empty());
    }
    while r < members.len()
        invariant
            0 <= r <= members@.len(),
            members@.len() <= MAX_LAYOUT_NODES,
            pos@.len() == old(pos)@.len(),
            pos@.len() <= MAX_LAYOUT_NODES,
            forall|j: int| 0 <= j < members@.len() ==> #[trigger] members@[j] < pos@.len(),
            pos@.map_values(|p: i64| p as int) == reassign(pos0, members@.take(r as int)),
            forall|i: int| 0 <= i < pos@.len() ==> 0 <= #[trigger] pos@[i] <= MAX_LAYOUT_NODES,
        decreases members@.len() - r,
    {
        proof {
            assert(members@.take(r + 1).drop_last() =~= members@.take(r as int));
            assert(members@.take(r + 1).last() == members@[r as int]);
        }
        let ghost pre = pos@;
        vec_set(pos, members[r], r as i64);
        proof {
            assert(pos@.map_values(|p: i64| p as int) =~= pre.map_values(
                |p: i64| p as int,
            ).update(members@[r as int] as int, r as int));
        }
        r += 1;
    }
    proof {
        assert(members@.take(members@.len() as int) =~= members@);
    }
}

/// One sorting pass over one column: the column's nodes reordered by their
/// barycenter keys (a no-op on an empty column), and the rows rewritten.
pub open spec fn col_pass(
    membersv: Seq<Seq<usize>>,
    pos: Seq<int>,
    ea: Seq<EdgeAbs>,
    colsi: Seq<int>,
    c: int,
    forward: bool,
) -> (Seq<Seq<usize>>, Seq<int>) {
    let m = membersv[c];
    if m.len() == 0 {
        (membersv, pos)
    } else {
        let sorted = sort_by_key(m, keys_for(ea, pos, colsi, c, forward));
        (membersv.update(c, sorted), reassign(pos, sorted))
    }
}

/// The forward half of a pass: columns left to right, skipping the first.
pub open spec fn forward_sweep(
    membersv: Seq<Seq<usize>>,
    pos: Seq<int>,
    ea: Seq<EdgeAbs>,
    colsi: Seq<int>,
    c: int,
) -> (Seq<Seq<usize>>, Seq<int>)
    decreases COLUMN_COUNT - c,
{
    if c < 0 || c >= COLUMN_COUNT {
        (membersv, pos)
    } else {
        let st = col_pass(membersv, pos, ea, colsi, c, true);
        forward_sweep(st.0, st.1, ea, colsi, c + 1)
    }
}

/// The backward half of a pass: columns right to left, skipping the last.
pub open spec fn backward_sweep(
    membersv: Seq<Seq<usize>>,
    pos: Seq<int>,
    ea: Seq<EdgeAbs>,
    colsi: Seq<int>,
    c: int,
) -> (Seq<Seq<usize>>, Seq<int>)
    decreases c + 1,
{
    if c < 0 {
        (membersv, pos)
    } else {
        let st = col_pass(membersv, pos, ea, colsi, c, false);
        backward_sweep(st.0, st.1, ea, colsi, c - 1)
    }
}

/// `k` alternating forward and backward passes.
pub open spec fn run_passes(
    membersv: Seq<Seq<usize>>,
    pos: Seq<int>,
    ea: Seq<EdgeAbs>,
    colsi: Seq<int>,
    k: int,
) -> (Seq<Seq<usize>>, Seq<int>)
    decreases k,
{
    if k <= 0 {
        (membersv, pos)
    } else {
        let f = forward_sweep(membersv, pos, ea, colsi, 1);
        let b = backward_sweep(f.0, f.1, ea, colsi, COLUMN_COUNT as int - 2);
        run_passes(b.0, b.1, ea, colsi, k - 1)
    }
}


/// Largest vertical extent of one laid-out node.
pub const EXTENT_LIMIT: i64 = 82000;

/// Largest total height of a column.
pub const COL_HEIGHT_LIMIT: i64 = 82000 * 0x10000;

/// The vertical extent one node takes in its column: its derived height
/// plus the inter-node gap.
pub open spec fn extent_of(d: DescAbs) -> int {
    let rows = if d.inputs.len() >= d.outputs.len() {
        d.inputs.len() as int
    } else {
        d.outputs.len() as int
    };
    ROW_BASE_HEIGHT + ROW_PORT_HEIGHT * rows + ROW_GAP
}

/// The total height of a column: the extents of its nodes, front to back.
pub open spec fn col_height(m: Seq<usize>, exts: Seq<int>) -> int
    decreases m.len(),
{
    if m.len() == 0 {
        0
    } else {
        exts[m[0] as int] + col_height(m.drop_first(), exts)
    }
}

/// A column of nonnegative extents has nonnegative height.
proof fn lemma_col_height_nonneg(m: Seq<usize>, exts: Seq<int>)
    requires
        forall|j: int| 0 <= j < m.len() ==> #[trigger] m[j] < exts.len(),
        forall|i: int| 0 <= i < exts.len() ==> 0 <= #[trigger] exts[i],
    ensures
        col_height(m, exts) >= 0,
    decreases m.len(),
{
    if m.len() > 0 {
        assert forall|j: int| 0 <= j < m.drop_first().len() implies #[trigger] m.drop_first()[j]
            < exts.len() by {
            assert(m.drop_first()[j] == m[j + 1]);
        }
        lemma_col_height_nonneg(m.drop_first(), exts);
    }
}

/// The tallest column height among the first `c` columns.
pub open spec fn max_height_upto(membersv: Seq<Seq<usize>>, exts: Seq<int>, c: int) -> int
    decreases c,
{
    if c <= 0 {
        0
    } else {
        let m = max_height_upto(membersv, exts, c - 1);
        let h = col_height(membersv[c - 1], exts);
        if h > m {
            h
        } else {
            m
        }
    }
}

/// Writes the positions of one column's nodes, top to bottom from `(x, y)`,
/// each advancing by its own extent.
pub open spec fn place_col(
    xs: Seq<int>,
    ys: Seq<int>,
    m: Seq<usize>,
    x: int,
    y: int,
    exts: Seq<int>,
) -> (Seq<int>, Seq<int>)
    decreases m.len(),
{
    if m.len() == 0 {
        (xs, ys)
    } else {
        let v = m[0] as int;
        place_col(xs.update(v, x), ys.update(v, y), m.drop_first(), x, y + exts[v], exts)
    }
}

/// Writes the positions of every column: fixed horizontal spacing, each
/// column vertically centered against the tallest one.
pub open spec fn place_cols(
    xs: Seq<int>,
    ys: Seq<int>,
    membersv: Seq<Seq<usize>>,
    exts: Seq<int>,
    c: int,
    max_h: int,
) -> (Seq<int>, Seq<int>)
    decreases COLUMN_COUNT - c,
{
    if c < 0 || c >= COLUMN_COUNT {
        (xs, ys)
    } else {
        let m = membersv[c];
        if m.len() == 0 {
            place_cols(xs, ys, membersv, exts, c + 1, max_h)
        } else {
            let yoff = (max_h - col_height(m, exts)) / 2;
            let st = place_col(
                xs,
                ys,
                m,
                LAYOUT_START_X + COLUMN_SPACING * c,
                LAYOUT_START_Y + yoff,
                exts,
            );
            place_cols(st.0, st.1, membersv, exts, c + 1, max_h)
        }
    }
}

/// Rows written column by column over an all-zero position vector: the
/// initial row assignment after the initial by-id sort.
pub open spec fn assign_all(pos: Seq<int>, membersv: Seq<Seq<usize>>, c: int) -> Seq<int>
    decreases COLUMN_COUNT - c,
{
    if c < 0 || c >= COLUMN_COUNT {
        pos
    } else {
        assign_all(reassign(pos, membersv[c]), membersv, c + 1)
    }
}

/// The columns and rows the barycenter passes settle on: per-column member
/// lists first ordered by id, rows assigned, then four alternating passes.
pub open spec fn spec_layout_state(ds: Seq<DescAbs>) -> (Seq<Seq<usize>>, Seq<int>) {
    let colsi = cols_of(ds);
    let ids = ids_of(ds);
    let members0 = Seq::new(
        COLUMN_COUNT as nat,
        |c: int| sort_by_id(members_from(colsi, c, 0), ids),
    );
    let pos0 = assign_all(Seq::new(ds.len(), |v: int| 0), members0, 0);
    run_passes(members0, pos0, spec_layout_edges(ds), colsi, 4)
}

/// The final canvas position of every node of the description.
pub open spec fn spec_layout_positions(ds: Seq<DescAbs>) -> (Seq<int>, Seq<int>) {
    let st = spec_layout_state(ds);
    let exts = Seq::new(ds.len(), |v: int| extent_of(ds[v]));
    let max_h = max_height_upto(st.0, exts, COLUMN_COUNT as int);
    place_cols(
        Seq::new(ds.len(), |v: int| 0),
        Seq::new(ds.len(), |v: int| 0),
        st.0,
        exts,
        0,
        max_h,
    )
}


/// The shape every stage of the pipeline preserves: five columns of
/// in-range member indices, aligned position and column vectors, and rows
/// within the node-count bound.
pub open spec fn state_wf(
    members: Seq<Vec<usize>>,
    pos: Seq<i64>,
    cols: Seq<usize>,
    n: int,
) -> bool {
    &&& members.len() == COLUMN_COUNT
    &&& pos.len() == n
    &&& cols.len() == n
    &&& n <= MAX_LAYOUT_NODES
    &&& forall|c: int, j: int|
        0 <= c < members.len() && 0 <= j < (#[trigger] members[c])@.len() ==> (#[trigger] members[c]@[j]) < n
    &&& forall|c: int| 0 <= c < members.len() ==> (#[trigger] members[c])@.len() <= MAX_LAYOUT_NODES
    &&& forall|i: int| 0 <= i < pos.len() ==> 0 <= #[trigger] pos[i] <= MAX_LAYOUT_NODES
}

/// The member lists as sequences.
pub open spec fn members_view(members: Seq<Vec<usize>>) -> Seq<Seq<usize>> {
    members.map_values(|v: Vec<usize>| v@)
}

/// Runs the four barycenter passes on the column members and rows.
fn barycenter_passes(
    members: &mut Vec<Vec<usize>>,
    pos: &mut Vec<i64>,
    edges: &Vec<crate::model::EdgeConnection>,
    cols: &Vec<usize>,
)
    requires
        state_wf(old(members)@, old(pos)@, cols@, old(pos)@.len() as int),
        edges@.len() <= MAX_LAYOUT_EDGES,
        forall|i: int|
            0 <= i < edges@.len() ==> (#[trigger] edges@[i]).from_node < old(pos)@.len()
                && edges@[i].to_node < old(pos)@.len(),
    ensures
        state_wf(final(members)@, final(pos)@, cols@, old(pos)@.len() as int),
        (
            members_view(final(members)@),
            final(pos)@.map_values(|p: i64| p as int),
        ) == run_passes(
            members_view(old(members)@),
            old(pos)@.map_values(|p: i64| p as int),
            edges@.map_values(|e: crate::model::EdgeConnection| edge_abs(e)),
            cols@.map_values(|v: usize| v as int),
            4,
        ),
{
    let ghost ea = edges@.map_values(|e: crate::model::EdgeConnection| edge_abs(e));
    let ghost colsi = cols@.map_values(|v: usize| v as int);
    let ghost n = old(pos)@.len() as int;
    let mut p: usize = 0;
    while p < 4
        invariant
            0 <= p <= 4,
            ea == edges@.map_values(|e: crate::model::EdgeConnection| edge_abs(e)),
            colsi == cols@.map_values(|v: usize| v as int),
            edges@.len() <= MAX_LAYOUT_EDGES,
            forall|i: int|
                0 <= i < edges@.len() ==> (#[trigger] edges@[i]).from_node < pos@.len()
                    && edges@[i].to_node < pos@.len(),
            state_wf(members@, pos@, cols@, n),
            run_passes(
                members_view(members@),
                pos@.map_values(|q: i64| q as int),
                ea,
                colsi,
                4 - p,
            ) == run_passes(
                members_view(old(members)@),
                old(pos)@.map_values(|q: i64| q as int),
                ea,
                colsi,
                4,
            ),
        decreases 4 - p,
    {
        // forward half: columns left to right, skipping the first
        let ghost fw_m = members_view(members@);
        let ghost fw_p = pos@.map_values(|q: i64| q as int);
        let mut c: usize = 1;
        while c < 5
            invariant
                1 <= c <= 5,
                ea == edges@.map_values(|e: crate::model::EdgeConnection| edge_abs(e)),
                colsi == cols@.map_values(|v: usize| v as int),
                edges@.len() <= MAX_LAYOUT_EDGES,
                forall|i: int|
                    0 <= i < edges@.len() ==> (#[trigger] edges@[i]).from_node < pos@.len()
                        && edges@[i].to_node < pos@.len(),
                state_wf(members@, pos@, cols@, n),
                forward_sweep(
                    members_view(members@),
                    pos@.map_values(|q: i64| q as int),
                    ea,
                    colsi,
                    c as int,
                ) == forward_sweep(fw_m, fw_p, ea, colsi, 1),
            decreases 5 - c,
        {
            pass_column(members, pos, edges, cols, c, true);
            c += 1;
        }
        // backward half: columns right to left, skipping the last
        let ghost bw_m = members_view(members@);
        let ghost bw_p = pos@.map_values(|q: i64| q as int);
        let mut ci: usize = 0;
        while ci < 4
            invariant
                0 <= ci <= 4,
                ea == edges@.map_values(|e: crate::model::EdgeConnection| edge_abs(e)),
                colsi == cols@.map_values(|v: usize| v as int),
                edges@.len() <= MAX_LAYOUT_EDGES,
                forall|i: int|
                    0 <= i < edges@.len() ==> (#[trigger] edges@[i]).from_node < pos@.len()
                        && edges@[i].to_node < pos@.len(),
                state_wf(members@, pos@, cols@, n),
                backward_sweep(
                    members_view(members@),
                    pos@.map_values(|q: i64| q as int),
                    ea,
                    colsi,
                    3 - ci,
                ) == backward_sweep(bw_m, bw_p, ea, colsi, 3),
            decreases 4 - ci,
        {
            pass_column(members, pos, edges, cols, 3 - ci, false);
            ci += 1;
        }
        proof {
            assert(forward_sweep(fw_m, fw_p, ea, colsi, 1) == (bw_m, bw_p));
            assert(run_passes(fw_m, fw_p, ea, colsi, 4 - p) == run_passes(
                members_view(members@),
                pos@.map_values(|q: i64| q as int),
                ea,
                colsi,
                4 - p - 1,
            ));
        }
        p += 1;
    }
}

/// One column of one pass: sorts the column by barycenter keys and rewrites
/// its rows.
fn pass_column(
    members: &mut Vec<Vec<usize>>,
    pos: &mut Vec<i64>,
    edges: &Vec<crate::model::EdgeConnection>,
    cols: &Vec<usize>,
    c: usize,
    forward: bool,
)
    requires
        c < COLUMN_COUNT,
        state_wf(old(members)@, old(pos)@, cols@, old(pos)@.len() as int),
        edges@.len() <= MAX_LAYOUT_EDGES,
        forall|i: int|
            0 <= i < edges@.len() ==> (#[trigger] edges@[i]).from_node < old(pos)@.len()
                && edges@[i].to_node < old(pos)@.len(),
    ensures
        state_wf(final(members)@, final(pos)@, cols@, old(pos)@.len() as int),
        final(pos)@.len() == old(pos)@.len(),
        (
            members_view(final(members)@),
            final(pos)@.map_values(|p: i64| p as int),
        ) == col_pass(
            members_view(old(members)@),
            old(pos)@.map_values(|p: i64| p as int),
            edges@.map_values(|e: crate::model::EdgeConnection| edge_abs(e)),
            cols@.map_values(|v: usize| v as int),
            c as int,
            forward,
        ),
{
    if members[c].is_empty() {
        return;
    }
    let keys = compute_keys(edges, pos, cols, c, forward);
    let sorted = do_sort_by_key(&members[c], &keys);
    apply_rows(pos, &sorted);
    let ghost sorted_view = sorted@;
    vec_set(members, c, sorted);
    proof {
        assert(members_view(members@) =~= members_view(old(members)@).update(
            c as int,
            sorted_view,
        ));
    }
}

/// The vertical extent of every description node.
fn compute_extents(descs: &Vec<NodeDesc>) -> (r: Vec<i64>)
    requires
        forall|i: int|
            0 <= i < descs@.len() ==> (#[trigger] descs@[i]).inputs@.len() <= MAX_PORTS
                && descs@[i].outputs@.len() <= MAX_PORTS,
    ensures
        r@.len() == descs@.len(),
        forall|v: int|
            0 <= v < r@.len() ==> #[trigger] r@[v] as int == extent_of(descs_abs(descs@)[v]),
        forall|v: int| 0 <= v < r@.len() ==> 0 < #[trigger] r@[v] <= EXTENT_LIMIT,
{
    let mut r: Vec<i64> = Vec::new();
    let mut v: usize = 0;
    while v < descs.len()
        invariant
            0 <= v <= descs@.len(),
            forall|i: int|
                0 <= i < descs@.len() ==> (#[trigger] descs@[i]).inputs@.len() <= MAX_PORTS
                    && descs@[i].outputs@.len() <= MAX_PORTS,
            r@.len() == v,
            forall|i: int|
                0 <= i < v ==> #[trigger] r@[i] as int == extent_of(descs_abs(descs@)[i]),
            forall|i: int| 0 <= i < v ==> 0 < #[trigger] r@[i] <= EXTENT_LIMIT,
        decreases descs@.len() - v,
    {
        let d = &descs[v];
        let rows = if d.inputs.len() >= d.outputs.len() {
            d.inputs.len()
        } else {
            d.outputs.len()
        };
        let e = ROW_BASE_HEIGHT + ROW_PORT_HEIGHT * (rows as i64) + ROW_GAP;
        r.push(e);
        v += 1;
    }
    r
}

/// The total height of one column, as `col_height` describes.
fn column_height(m: &Vec<usize>, exts: &Vec<i64>) -> (r: i64)
    requires
        forall|j: int| 0 <= j < m@.len() ==> #[trigger] m@[j] < exts@.len(),
        m@.len() <= MAX_LAYOUT_NODES,
        forall|i: int| 0 <= i < exts@.len() ==> 0 < #[trigger] exts@[i] <= EXTENT_LIMIT,
    ensures
        r as int == col_height(m@, exts@.map_values(|e: i64| e as int)),
        0 <= r <= COL_HEIGHT_LIMIT,
{
    let ghost extsi = exts@.map_values(|e: i64| e as int);
    let mut h: i64 = 0;
    let mut i: usize = 0;
    proof {
        assert(m@.skip(0) =~= m@);
    }
    while i < m.len()
        invariant
            0 <= i <= m@.len(),
            m@.len() <= MAX_LAYOUT_NODES,
            extsi == exts@.map_values(|e: i64| e as int),
            forall|j: int| 0 <= j < m@.len() ==> #[trigger] m@[j] < exts@.len(),
            forall|q: int| 0 <= q < exts@.len() ==> 0 < #[trigger] exts@[q] <= EXTENT_LIMIT,
            h as int + col_height(m@.skip(i as int), extsi) == col_height(m@, extsi),
            0 <= h,
            h <= EXTENT_LIMIT * i,
        decreases m@.len() - i,
    {
        proof {
            assert(m@.skip(i as int).drop_first() =~= m@.skip(i + 1));
            assert(m@.skip(i as int)[0] == m@[i as int]);
            assert(EXTENT_LIMIT * i + EXTENT_LIMIT == EXTENT_LIMIT * (i + 1)) by (nonlinear_arith);
            assert(EXTENT_LIMIT * (i + 1) <= EXTENT_LIMIT * (MAX_LAYOUT_NODES as i64))
                by (nonlinear_arith)
                requires
                    i + 1 <= MAX_LAYOUT_NODES,
            ;
        }
        h = h + exts[m[i]];
        i += 1;
    }
    proof {
        assert(m@.skip(m@.len() as int) =~= Seq::<usize>::empty());
        assert(EXTENT_LIMIT * (m@.len() as i64) <= COL_HEIGHT_LIMIT) by (nonlinear_arith)
            requires
                m@.len() <= MAX_LAYOUT_NODES,
        ;
    }
    h
}

/// The canvas positions of every node: columns at fixed horizontal spacing,
/// each column's nodes stacked and vertically centered against the tallest
/// column, as `place_cols` describes.
fn compute_positions(members: &Vec<Vec<usize>>, exts: &Vec<i64>, Ghost(n): Ghost<int>) -> (r: (
    Vec<i64>,
    Vec<i64>,
))
    requires
        members@.len() == COLUMN_COUNT,
        exts@.len() == n,
        n <= MAX_LAYOUT_NODES,
        forall|c: int, j: int|
            0 <= c < members@.len() && 0 <= j < (#[trigger] members@[c])@.len() ==> (
            #[trigger] members@[c]@[j]) < n,
        forall|c: int|
            0 <= c < members@.len() ==> (#[trigger] members@[c])@.len() <= MAX_LAYOUT_NODES,
        forall|i: int| 0 <= i < exts@.len() ==> 0 < #[trigger] exts@[i] <= EXTENT_LIMIT,
    ensures
        r.0@.len() == n,
        r.1@.len() == n,
        (
            r.0@.map_values(|x: i64| x as int),
            r.1@.map_values(|y: i64| y as int),
        ) == place_cols(
            Seq::new(n as nat, |v: int| 0),
            Seq::new(n as nat, |v: int| 0),
            members_view(members@),
            exts@.map_values(|e: i64| e as int),
            0,
            max_height_upto(
                members_view(members@),
                exts@.map_values(|e: i64| e as int),
                COLUMN_COUNT as int,
            ),
        ),
        forall|i: int| 0 <= i < n ==> 0 <= #[trigger] r.0@[i] <= 2000,
        forall|i: int|
            0 <= i < n ==> 0 <= #[trigger] r.1@[i] <= LAYOUT_START_Y + COL_HEIGHT_LIMIT,
{
    let ghost extsi = exts@.map_values(|e: i64| e as int);
    let ghost mv = members_view(members@);
    // the tallest column
    let mut max_h: i64 = 0;
    let mut c: usize = 0;
    while c < 5
        invariant
            0 <= c <= 5,
            members@.len() == COLUMN_COUNT,
            extsi == exts@.map_values(|e: i64| e as int),
            mv == members_view(members@),
            forall|q: int, j: int|
                0 <= q < members@.len() && 0 <= j < (#[trigger] members@[q])@.len() ==> (
                #[trigger] members@[q]@[j]) < exts@.len(),
            forall|q: int|
                0 <= q < members@.len() ==> (#[trigger] members@[q])@.len() <= MAX_LAYOUT_NODES,
            forall|i: int| 0 <= i < exts@.len() ==> 0 < #[trigger] exts@[i] <= EXTENT_LIMIT,
            max_h as int == max_height_upto(mv, extsi, c as int),
            0 <= max_h <= COL_HEIGHT_LIMIT,
        decreases 5 - c,
    {
        let h = column_height(&members[c], exts);
        if h > max_h {
            max_h = h;
        }
        c += 1;
    }
    // stack every column
    let n_exec = exts.len();
    let mut xs: Vec<i64> = Vec::new();
    let mut ys: Vec<i64> = Vec::new();
    let mut v: usize = 0;
    while v < n_exec
        invariant
            0 <= v <= n_exec,
            n_exec == exts@.len(),
            xs@.len() == v,
            ys@.len() == v,
            forall|i: int| 0 <= i < v ==> #[trigger] xs@[i] == 0,
            forall|i: int| 0 <= i < v ==> #[trigger] ys@[i] == 0,
        decreases n_exec - v,
    {
        xs.push(0);
        ys.push(0);
        v += 1;
    }
    proof {
        assert(xs@.map_values(|x: i64| x as int) =~= Seq::new(n as nat, |q: int| 0int));
        assert(ys@.map_values(|y: i64| y as int) =~= Seq::new(n as nat, |q: int| 0int));
    }
    let mut c2: usize = 0;
    while c2 < 5
        invariant
            0 <= c2 <= 5,
            members@.len() == COLUMN_COUNT,
            extsi == exts@.map_values(|e: i64| e as int),
            mv == members_view(members@),
            n == exts@.len(),
            n <= MAX_LAYOUT_NODES,
            xs@.len() == n,
            ys@.len() == n,
            forall|q: int, j: int|
                0 <= q < members@.len() && 0 <= j < (#[trigger] members@[q])@.len() ==> (
                #[trigger] members@[q]@[j]) < exts@.len(),
            forall|q: int|
                0 <= q < members@.len() ==> (#[trigger] members@[q])@.len() <= MAX_LAYOUT_NODES,
            forall|i: int| 0 <= i < exts@.len() ==> 0 < #[trigger] exts@[i] <= EXTENT_LIMIT,
            0 <= max_h <= COL_HEIGHT_LIMIT,
            max_h as int == max_height_upto(mv, extsi, COLUMN_COUNT as int),
            place_cols(
                xs@.map_values(|x: i64| x as int),
                ys@.map_values(|y: i64| y as int),
                mv,
                extsi,
                c2 as int,
                max_h as int,
            ) == place_cols(
                Seq::new(n as nat, |q: int| 0),
                Seq::new(n as nat, |q: int| 0),
                mv,
                extsi,
                0,
                max_h as int,
            ),
            forall|i: int| 0 <= i < n ==> 0 <= #[trigger] xs@[i] <= 2000,
            forall|i: int| 0 <= i < n ==> 0 <= #[trigger] ys@[i] <= LAYOUT_START_Y
                + COL_HEIGHT_LIMIT,
        decreases 5 - c2,
    {
        let m = &members[c2];
        if !m.is_empty() {
            let h = column_height(m, exts);
            proof {
                lemma_col_height_nonneg(m@, extsi);
                lemma_max_height_covers(mv, extsi, COLUMN_COUNT as int, c2 as int);
                vstd::arithmetic::div_mod::lemma_div_multiples_vanish(
                    max_h as int - h as int,
                    1,
                );
                vstd::arithmetic::div_mod::lemma_div_is_ordered_by_denominator(
                    max_h as int - h as int,
                    1,
                    2,
                );
            }
            proof {
                let di = max_h as int - h as int;
                vstd::arithmetic::div_mod::lemma_div_multiples_vanish(di, 1);
                assert(1 * di == di);
                vstd::arithmetic::div_mod::lemma_div_is_ordered_by_denominator(di, 1, 2);
                assert(di / 2 <= di);
            }
            let yoff = ((max_h - h) as u64 / 2) as i64;
            let x = LAYOUT_START_X + COLUMN_SPACING * (c2 as i64);
            let mut y = LAYOUT_START_Y + yoff;
            let ghost x0 = x as int;
            let ghost xs_c = xs@.map_values(|q: i64| q as int);
            let ghost ys_c = ys@.map_values(|q: i64| q as int);
            let ghost y_c = y as int;
            let ghost mseq = m@;
            proof {
                assert(mseq.skip(0) =~= mseq);
            }
            let mut rix: usize = 0;
            while rix < m.len()
                invariant
                    0 <= rix <= mseq.len(),
                    members@.len() == COLUMN_COUNT,
                    c2 < 5,
                    m@ == mseq,
                    extsi == exts@.map_values(|e: i64| e as int),
                    n == exts@.len(),
                    xs@.len() == n,
                    ys@.len() == n,
                    forall|j: int| 0 <= j < mseq.len() ==> #[trigger] mseq[j] < exts@.len(),
                    forall|i: int| 0 <= i < exts@.len() ==> 0 < #[trigger] exts@[i] <= EXTENT_LIMIT,
                    x0 == x as int,
                    0 <= x <= 2000,
                    LAYOUT_START_Y <= y,
                    y as int + col_height(mseq.skip(rix as int), extsi) <= LAYOUT_START_Y
                        + COL_HEIGHT_LIMIT,
                    place_col(
                        xs@.map_values(|q: i64| q as int),
                        ys@.map_values(|q: i64| q as int),
                        mseq.skip(rix as int),
                        x0,
                        y as int,
                        extsi,
                    ) == place_col(xs_c, ys_c, mseq, x0, y_c, extsi),
                    forall|i: int| 0 <= i < n ==> 0 <= #[trigger] xs@[i] <= 2000,
                    forall|i: int| 0 <= i < n ==> 0 <= #[trigger] ys@[i] <= LAYOUT_START_Y
                        + COL_HEIGHT_LIMIT,
                decreases mseq.len() - rix,
            {
                let nodev = m[rix];
                proof {
                    assert(mseq.skip(rix as int)[0] == mseq[rix as int]);
                    assert(mseq.skip(rix as int).drop_first() =~= mseq.skip(rix + 1));
                    assert forall|j: int| 0 <= j < mseq.skip(rix + 1).len() implies #[trigger] mseq.skip(
                        rix + 1,
                    )[j] < extsi.len() by {
                        assert(mseq.skip(rix + 1)[j] == mseq[rix + 1 + j]);
                    }
                    lemma_col_height_nonneg(mseq.skip(rix + 1), extsi);
                    assert(extsi[mseq[rix as int] as int] == exts@[mseq[rix as int] as int] as int);
                    assert(col_height(mseq.skip(rix as int), extsi) == extsi[mseq[rix as int] as int]
                        + col_height(mseq.skip(rix + 1), extsi));
                    assert(y as int <= LAYOUT_START_Y + COL_HEIGHT_LIMIT);
                }
                let ghost pre_xs = xs@.map_values(|q: i64| q as int);
                let ghost pre_ys = ys@.map_values(|q: i64| q as int);
                let ghost pre_xv = xs@;
                let ghost pre_yv = ys@;
                vec_set(&mut xs, nodev, x);
                vec_set(&mut ys, nodev, y);
                proof {
                    assert(xs@.map_values(|q: i64| q as int) =~= pre_xs.update(
                        nodev as int,
                        x as int,
                    ));
                    assert(ys@.map_values(|q: i64| q as int) =~= pre_ys.update(
                        nodev as int,
                        y as int,
                    ));
                    assert forall|i: int| 0 <= i < n implies 0 <= #[trigger] xs@[i] <= 2000 by {
                        if i != nodev {
                            assert(xs@[i] == pre_xv[i]);
                        }
                    }
                    assert forall|i: int| 0 <= i < n implies 0 <= #[trigger] ys@[i]
                        <= LAYOUT_START_Y + COL_HEIGHT_LIMIT by {
                        if i != nodev {
                            assert(ys@[i] == pre_yv[i]);
                        }
                    }
                }
                y = y + exts[nodev];
                rix += 1;
            }
            proof {
                assert(mseq.skip(mseq.len() as int) =~= Seq::<usize>::empty());
            }
        }
        c2 += 1;
    }
    (xs, ys)
}

/// The tallest-column height is at least every single column's height.
proof fn lemma_max_height_covers(membersv: Seq<Seq<usize>>, exts: Seq<int>, c: int, k: int)
    requires
        0 <= k < c,
    ensures
        col_height(membersv[k], exts) <= max_height_upto(membersv, exts, c),
    decreases c,
{
    if k < c - 1 {
        lemma_max_height_covers(membersv, exts, c - 1, k);
    }
}



/// `nodes` and `edges` are exactly the graph the layout engine builds for
/// the description `ds`: one node per entry, carrying its id as title, its
/// ports, its category and the computed position; one solid, arrow-marked
/// edge per resolved input source.
pub open spec fn laid_out(
    nodes: Seq<crate::model::FlowNode>,
    edges: Seq<crate::model::EdgeConnection>,
    ds: Seq<DescAbs>,
) -> bool {
    &&& edges.map_values(|e: crate::model::EdgeConnection| edge_abs(e)) == spec_layout_edges(ds)
    &&& (forall|i: int|
        0 <= i < edges.len() ==> {
            &&& (#[trigger] edges[i]).style == crate::model::EdgeStyle::Solid
            &&& edges[i].width == 2
            &&& edges[i].animated == false
            &&& edges[i].label@ == Seq::<char>::empty()
            &&& edges[i].marker_end == crate::model::EdgeMarker::Arrow
            &&& edges[i].from_node < ds.len()
            &&& edges[i].to_node < ds.len()
        })
    &&& nodes.len() == ds.len()
    &&& (forall|v: int|
        0 <= v < nodes.len() ==> {
            let positions = spec_layout_positions(ds);
            &&& (#[trigger] nodes[v]).wf()
            &&& nodes[v].id@ == ds[v].id
            &&& nodes[v].title@ == ds[v].id
            &&& nodes[v].x as int == positions.0[v]
            &&& nodes[v].y as int == positions.1[v]
            &&& nodes[v].width == crate::model::NODE_WIDTH
            &&& nodes[v].height as int == crate::model::dataflow_node_height(
                ds[v].inputs.len() as int,
                ds[v].outputs.len() as int,
            )
            &&& nodes[v].category == spec_categorize(ds[v].id, ds[v].path)
            &&& nodes[v].node_type == crate::model::NodeType::Custom
            &&& nodes[v].shape == crate::model::NodeShape::DoubleRoundedRect
            &&& nodes[v].border_width == 2
            &&& nodes[v].input_ports@.len() == ds[v].inputs.len()
            &&& (forall|j: int|
                0 <= j < ds[v].inputs.len() ==> (#[trigger] nodes[v].input_ports@[j]).id@
                    == ds[v].inputs[j].0 && nodes[v].input_ports@[j].label@ == ds[v].inputs[j].0)
            &&& nodes[v].output_ports@.len() == ds[v].outputs.len()
            &&& (forall|j: int|
                0 <= j < ds[v].outputs.len() ==> (#[trigger] nodes[v].output_ports@[j]).id@
                    == ds[v].outputs[j] && nodes[v].output_ports@[j].label@ == ds[v].outputs[j])
        })
}

/// Builds the graph a dataflow description describes: one node per
/// description entry with its ports, category and computed position, and
/// one edge per resolved input source. The result is a function of the
/// description alone, so two runs over the same description place every
/// node identically.
pub fn layout_dataflow(descs: &Vec<NodeDesc>) -> (r: (
    Vec<crate::model::FlowNode>,
    Vec<crate::model::EdgeConnection>,
))
    requires
        descs@.len() <= MAX_LAYOUT_NODES,
        forall|i: int|
            0 <= i < descs@.len() ==> (#[trigger] descs@[i]).inputs@.len() <= MAX_PORTS
                && descs@[i].outputs@.len() <= MAX_PORTS,
    ensures
        laid_out(r.0@, r.1@, descs_abs(descs@)),
{
    let ghost ds = descs_abs(descs@);
    let ghost colsi = cols_of(ds);
    let ghost idsg = ids_of(ds);
    let n = descs.len();
    // per-node categories, columns and id characters
    let mut cats: Vec<NodeCategory> = Vec::new();
    let mut cols: Vec<usize> = Vec::new();
    let mut id_chars: Vec<Vec<char>> = Vec::new();
    let mut v: usize = 0;
    while v < n
        invariant
            0 <= v <= n,
            n == descs@.len(),
            ds == descs_abs(descs@),
            colsi == cols_of(ds),
            idsg == ids_of(ds),
            cats@.len() == v,
            cols@.len() == v,
            id_chars@.len() == v,
            forall|i: int|
                0 <= i < v ==> #[trigger] cats@[i] == spec_categorize(ds[i].id, ds[i].path),
            forall|i: int| 0 <= i < v ==> #[trigger] cols@[i] as int == colsi[i],
            forall|i: int| 0 <= i < v ==> #[trigger] cols@[i] < COLUMN_COUNT,
            forall|i: int| 0 <= i < v ==> (#[trigger] id_chars@[i])@ == idsg[i],
        decreases n - v,
    {
        let d = &descs[v];
        let cat = match &d.path {
            Some(p) => categorize(d.id.as_str(), Some(p.as_str())),
            None => categorize(d.id.as_str(), None),
        };
        cats.push(cat);
        cols.push(column_of(cat));
        id_chars.push(chars_of(d.id.as_str()));
        v += 1;
    }
    // initial column membership, ordered by id
    let mut members: Vec<Vec<usize>> = Vec::new();
    let mut c: usize = 0;
    while c < 5
        invariant
            0 <= c <= 5,
            n == descs@.len(),
            n <= MAX_LAYOUT_NODES,
            cols@.len() == n,
            id_chars@.len() == n,
            idsg.len() == n,
            colsi == cols_of(ds),
            idsg == ids_of(ds),
            forall|i: int| 0 <= i < n ==> #[trigger] cols@[i] as int == colsi[i],
            forall|i: int| 0 <= i < n ==> (#[trigger] id_chars@[i])@ == idsg[i],
            members@.len() == c,
            forall|q: int|
                0 <= q < c ==> (#[trigger] members@[q])@ == sort_by_id(
                    members_from(colsi, q, 0),
                    idsg,
                ),
            forall|q: int, j: int|
                0 <= q < c && 0 <= j < (#[trigger] members@[q])@.len() ==> (
                #[trigger] members@[q]@[j]) < n,
            forall|q: int|
                0 <= q < c ==> (#[trigger] members@[q])@.len() <= MAX_LAYOUT_NODES,
        decreases 5 - c,
    {
        let raw = column_members(&cols, c);
        proof {
            assert(cols@.map_values(|x: usize| x as int) =~= colsi);
        }
        let sorted = do_sort_by_id(&raw, &id_chars, Ghost(idsg));
        members.push(sorted);
        c += 1;
    }
    // initial rows
    let mut pos: Vec<i64> = Vec::new();
    let mut v2: usize = 0;
    while v2 < n
        invariant
            0 <= v2 <= n,
            pos@.len() == v2,
            forall|i: int| 0 <= i < v2 ==> #[trigger] pos@[i] == 0,
        decreases n - v2,
    {
        pos.push(0);
        v2 += 1;
    }
    proof {
        assert(pos@.map_values(|p: i64| p as int) =~= Seq::new(n as nat, |i: int| 0int));
    }
    let ghost members0 = members_view(members@);
    let ghost pos_zero = pos@.map_values(|p: i64| p as int);
    let mut c2: usize = 0;
    while c2 < 5
        invariant
            0 <= c2 <= 5,
            n == descs@.len(),
            n <= MAX_LAYOUT_NODES,
            members@.len() == COLUMN_COUNT,
            members0 == members_view(members@),
            pos@.len() == n,
            forall|q: int, j: int|
                0 <= q < members@.len() && 0 <= j < (#[trigger] members@[q])@.len() ==> (
                #[trigger] members@[q]@[j]) < n,
            forall|q: int|
                0 <= q < members@.len() ==> (#[trigger] members@[q])@.len() <= MAX_LAYOUT_NODES,
            forall|i: int| 0 <= i < n ==> 0 <= #[trigger] pos@[i] <= MAX_LAYOUT_NODES,
            assign_all(pos@.map_values(|p: i64| p as int), members0, c2 as int) == assign_all(
                pos_zero,
                members0,
                0,
            ),
        decreases 5 - c2,
    {
        apply_rows(&mut pos, &members[c2]);
        c2 += 1;
    }
    // resolved edges, then the barycenter passes
    let edges = resolve_edges(descs);
    proof {
        lemma_edges_len_bound(ds, idsg, 0);
        assert(edges@.len() <= MAX_LAYOUT_EDGES);
    }
    barycenter_passes(&mut members, &mut pos, &edges, &cols);
    // final placement
    let exts = compute_extents(descs);
    let (xs, ys) = compute_positions(&members, &exts, Ghost(n as int));
    proof {
        assert(exts@.map_values(|e: i64| e as int) =~= Seq::new(
            ds.len(),
            |v: int| extent_of(ds[v]),
        ));
        assert(cols@.map_values(|x: usize| x as int) =~= colsi);
        assert(members0 =~= Seq::new(
            COLUMN_COUNT as nat,
            |cq: int| sort_by_id(members_from(colsi, cq, 0), idsg),
        ));
        assert(pos_zero =~= Seq::new(ds.len(), |vq: int| 0int));
        assert(Seq::new(n as nat, |vq: int| 0int) =~= Seq::new(ds.len(), |vq: int| 0int));
        assert(spec_layout_state(ds) == (
            members_view(members@),
            pos@.map_values(|p: i64| p as int),
        ));
        assert((
            xs@.map_values(|x: i64| x as int),
            ys@.map_values(|y: i64| y as int),
        ) == spec_layout_positions(ds));
    }
    // build the nodes
    let mut nodes: Vec<crate::model::FlowNode> = Vec::new();
    let mut v3: usize = 0;
    while v3 < n
        invariant
            0 <= v3 <= n,
            n == descs@.len(),
            n <= MAX_LAYOUT_NODES,
            ds == descs_abs(descs@),
            forall|i: int|
                0 <= i < descs@.len() ==> (#[trigger] descs@[i]).inputs@.len() <= MAX_PORTS
                    && descs@[i].outputs@.len() <= MAX_PORTS,
            cats@.len() == n,
            forall|i: int|
                0 <= i < n ==> #[trigger] cats@[i] == spec_categorize(ds[i].id, ds[i].path),
            xs@.len() == n,
            ys@.len() == n,
            forall|i: int| 0 <= i < n ==> 0 <= #[trigger] xs@[i] <= 2000,
            forall|i: int|
                0 <= i < n ==> 0 <= #[trigger] ys@[i] <= LAYOUT_START_Y + COL_HEIGHT_LIMIT,
            (
                xs@.map_values(|x: i64| x as int),
                ys@.map_values(|y: i64| y as int),
            ) == spec_layout_positions(ds),
            nodes@.len() == v3,
            forall|v: int|
                0 <= v < v3 ==> {
                    let positions = spec_layout_positions(ds);
                    &&& (#[trigger] nodes@[v]).wf()
                    &&& nodes@[v].id@ == ds[v].id
                    &&& nodes@[v].title@ == ds[v].id
                    &&& nodes@[v].x as int == positions.0[v]
                    &&& nodes@[v].y as int == positions.1[v]
                    &&& nodes@[v].width == crate::model::NODE_WIDTH
                    &&& nodes@[v].height as int == crate::model::dataflow_node_height(
                        ds[v].inputs.len() as int,
                        ds[v].outputs.len() as int,
                    )
                    &&& nodes@[v].category == spec_categorize(ds[v].id, ds[v].path)
                    &&& nodes@[v].node_type == crate::model::NodeType::Custom
                    &&& nodes@[v].shape == crate::model::NodeShape::DoubleRoundedRect
                    &&& nodes@[v].border_width == 2
                    &&& nodes@[v].input_ports@.len() == ds[v].inputs.len()
                    &&& (forall|j: int|
                        0 <= j < ds[v].inputs.len() ==> (#[trigger] nodes@[v].input_ports@[j]).id@
                            == ds[v].inputs[j].0 && nodes@[v].input_ports@[j].label@
                            == ds[v].inputs[j].0)
                    &&& nodes@[v].output_ports@.len() == ds[v].outputs.len()
                    &&& (forall|j: int|
                        0 <= j < ds[v].outputs.len() ==> (#[trigger] nodes@[v].output_ports@[j]).id@
                            == ds[v].outputs[j] && nodes@[v].output_ports@[j].label@
                            == ds[v].outputs[j])
                },
        decreases n - v3,
    {
        let d = &descs[v3];
        let mut input_ports: Vec<crate::model::Port> = Vec::new();
        let mut j: usize = 0;
        while j < d.inputs.len()
            invariant
                0 <= j <= d.inputs@.len(),
                v3 < descs@.len(),
                ds == descs_abs(descs@),
                d == &descs[v3 as int],
                input_ports@.len() == j,
                forall|q: int|
                    0 <= q < j ==> (#[trigger] input_ports@[q]).id@ == ds[v3 as int].inputs[q].0
                        && input_ports@[q].label@ == ds[v3 as int].inputs[q].0,
            decreases d.inputs@.len() - j,
        {
            input_ports.push(crate::model::Port::new(d.inputs[j].0.as_str()));
            j += 1;
        }
        let mut output_ports: Vec<crate::model::Port> = Vec::new();
        let mut k: usize = 0;
        while k < d.outputs.len()
            invariant
                0 <= k <= d.outputs@.len(),
                v3 < descs@.len(),
                ds == descs_abs(descs@),
                d == &descs[v3 as int],
                output_ports@.len() == k,
                forall|q: int|
                    0 <= q < k ==> (#[trigger] output_ports@[q]).id@ == ds[v3 as int].outputs[q]
                        && output_ports@[q].label@ == ds[v3 as int].outputs[q],
            decreases d.outputs@.len() - k,
        {
            output_ports.push(crate::model::Port::new(d.outputs[k].as_str()));
            k += 1;
        }
        let node = crate::model::FlowNode::new_dataflow(
            d.id.as_str(),
            xs[v3],
            ys[v3],
            d.id.as_str(),
            cats[v3],
            input_ports,
            output_ports,
        );
        nodes.push(node);
        v3 += 1;
    }
    (nodes, edges)
}

/// A description's edge count is bounded by its total declared input count.
proof fn lemma_edges_len_bound(ds: Seq<DescAbs>, ids: Seq<Seq<char>>, t: int)
    requires
        0 <= t <= ds.len(),
        ds.len() <= MAX_LAYOUT_NODES,
        forall|i: int| 0 <= i < ds.len() ==> (#[trigger] ds[i]).inputs.len() <= MAX_PORTS,
    ensures
        edges_abs_from(ds, ids, t).len() <= (ds.len() - t) * (MAX_PORTS as int),
    decreases ds.len() - t,
{
    if t < ds.len() {
        lemma_edges_len_bound(ds, ids, t + 1);
        lemma_inputs_edges_len(ds[t].inputs, ids, t as usize);
        assert((ds.len() - t) * (MAX_PORTS as int) == (ds.len() - t - 1) * (MAX_PORTS as int)
            + MAX_PORTS) by (nonlinear_arith);
    } else {
        assert((ds.len() - t) * (MAX_PORTS as int) == 0) by (nonlinear_arith)
            requires
                t == ds.len(),
        ;
    }
}

/// A node's inputs contribute at most one edge each.
proof fn lemma_inputs_edges_len(
    inputs: Seq<(Seq<char>, Option<Seq<char>>)>,
    ids: Seq<Seq<char>>,
    t: usize,
)
    ensures
        inputs_edges(inputs, ids, t).len() <= inputs.len(),
    decreases inputs.len(),
{
    if inputs.len() > 0 {
        lemma_inputs_edges_len(inputs.drop_last(), ids, t);
    }
}

} // verus!
