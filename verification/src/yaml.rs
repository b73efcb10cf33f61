//! Reading a dataflow description out of a YAML document.
//!
//! The document is parsed by serde_yaml and converted, one constructor at a
//! time, into the plain tree `YamlTree`. Parsing is a function of the
//! document text alone, so its result carries the name `yaml_doc_of`, and
//! everything after it — picking the fields, reading the port maps,
//! validating the shapes — is verified against the spec mirror
//! `parse_doc`.

use crate::layout::{DescAbs, NodeDesc};
use vstd::prelude::*;

verus! {

broadcast use vstd::std_specs::vec::group_vec_axioms;

/// serde_yaml's document value, opaque to the verifier; it is parsed and
/// converted and nothing else.
#[verifier::external_type_specification]
#[verifier::external_body]
pub struct ExYamlValue(serde_yaml::Value);

/// A YAML value reduced to what the dataflow description reads: strings,
/// sequences and mappings; everything else (numbers, booleans, nulls, tags)
/// is `Other`.
pub enum YamlTree {
    Str(String),
    List(Vec<YamlTree>),
    Mapping(Vec<(YamlTree, YamlTree)>),
    Other,
}

/// The tree a YAML document parses to, or nothing when the document is
/// rejected. Parsing is a function of the document text alone, so the
/// result can carry a name.
pub uninterp spec fn yaml_doc_of(s: Seq<char>) -> Option<YamlTree>;

/// Parses a YAML document into its plain tree.
///
/// Relies on `serde_yaml::from_str`: a deterministic parser of the document
/// text alone, whose mappings iterate in document order, so two calls on
/// one text yield the same tree — named `yaml_doc_of`. A document the
/// parser rejects (malformed, duplicate keys, over the depth limit) is an
/// error, rendered as a string, and has no tree.
#[verifier::external_body]
fn parse_document(s: &str) -> (r: Result<YamlTree, String>)
    ensures
        r matches Ok(t) ==> yaml_doc_of(s@) == Some(t),
        r is Err ==> yaml_doc_of(s@) is None,
{
    match serde_yaml::from_str::<serde_yaml::Value>(s) {
        Ok(v) => Ok(yaml_tree(&v)),
        Err(e) => Err(e.to_string()),
    }
}

/// The conversion step of `parse_document` (recursion needs a named
/// function).
///
/// Relies on `serde_yaml::Value`'s variants and `Mapping::iter`, which
/// visits entries in document order: each constructor is mapped to its
/// counterpart, field for field.
#[verifier::external_body]
fn yaml_tree(v: &serde_yaml::Value) -> YamlTree {
    match v {
        serde_yaml::Value::String(s) => YamlTree::Str(s.clone()),
        serde_yaml::Value::Sequence(xs) => YamlTree::List(xs.iter().map(yaml_tree).collect()),
        serde_yaml::Value::Mapping(m) => YamlTree::Mapping(
            m.iter().map(|(k, x)| (yaml_tree(k), yaml_tree(x))).collect(),
        ),
        _ => YamlTree::Other,
    }
}

/// The mathematical value of a `YamlTree`.
pub enum YamlAbs {
    Str(Seq<char>),
    List(Seq<YamlAbs>),
    Mapping(Seq<(YamlAbs, YamlAbs)>),
    Other,
}

/// The abstract value of a tree.
pub open spec fn yaml_abs(t: YamlTree) -> YamlAbs
    decreases t,
{
    match t {
        YamlTree::Str(s) => YamlAbs::Str(s@),
        YamlTree::List(xs) => YamlAbs::List(yaml_abs_list(xs@)),
        YamlTree::Mapping(es) => YamlAbs::Mapping(yaml_abs_entries(es@)),
        YamlTree::Other => YamlAbs::Other,
    }
}

/// The abstract values of a tree list.
pub open spec fn yaml_abs_list(s: Seq<YamlTree>) -> Seq<YamlAbs>
    decreases s,
{
    if s.len() == 0 {
        Seq::empty()
    } else {
        seq![yaml_abs(s[0])] + yaml_abs_list(s.drop_first())
    }
}

/// The abstract values of a mapping's entries.
pub open spec fn yaml_abs_entries(s: Seq<(YamlTree, YamlTree)>) -> Seq<(YamlAbs, YamlAbs)>
    decreases s,
{
    if s.len() == 0 {
        Seq::empty()
    } else {
        seq![(yaml_abs(s[0].0), yaml_abs(s[0].1))] + yaml_abs_entries(s.drop_first())
    }
}

/// The value under the first string key equal to `key`.
pub open spec fn find_key(entries: Seq<(YamlAbs, YamlAbs)>, key: Seq<char>) -> Option<YamlAbs>
    decreases entries.len(),
{
    if entries.len() == 0 {
        None
    } else {
        match entries[0].0 {
            YamlAbs::Str(k) => if k == key {
                Some(entries[0].1)
            } else {
                find_key(entries.drop_first(), key)
            },
            _ => find_key(entries.drop_first(), key),
        }
    }
}

/// The source string an input declaration names: either the string itself,
/// or the string under its `source` key; any other shape means none.
pub open spec fn source_of(v: YamlAbs) -> Option<Seq<char>> {
    match v {
        YamlAbs::Str(s) => Some(s),
        YamlAbs::Mapping(es) => match find_key(es, "source"@) {
            Some(YamlAbs::Str(s)) => Some(s),
            _ => None,
        },
        _ => None,
    }
}

/// The input ports declared by a mapping's entries, in order; entries with
/// non-string keys are skipped.
pub open spec fn inputs_of_entries(entries: Seq<(YamlAbs, YamlAbs)>) -> Seq<
    (Seq<char>, Option<Seq<char>>),
>
    decreases entries.len(),
{
    if entries.len() == 0 {
        Seq::empty()
    } else {
        let rest = inputs_of_entries(entries.drop_first());
        match entries[0].0 {
            YamlAbs::Str(k) => seq![(k, source_of(entries[0].1))] + rest,
            _ => rest,
        }
    }
}

/// The input ports of a node: its `inputs` mapping read in order, or none
/// when the field is missing or not a mapping.
pub open spec fn parse_inputs(v: Option<YamlAbs>) -> Seq<(Seq<char>, Option<Seq<char>>)> {
    match v {
        Some(YamlAbs::Mapping(es)) => inputs_of_entries(es),
        _ => Seq::empty(),
    }
}

/// The output ports of a node: its `outputs` list, which must hold strings
/// only; a missing field means no outputs, any other shape is an error.
pub open spec fn parse_outputs(v: Option<YamlAbs>) -> Result<Seq<Seq<char>>, ()>
    decreases v,
{
    match v {
        None => Ok(Seq::empty()),
        Some(YamlAbs::List(items)) => parse_output_items(items),
        Some(_) => Err(()),
    }
}

/// The strings of an output list; a non-string element is an error.
pub open spec fn parse_output_items(items: Seq<YamlAbs>) -> Result<Seq<Seq<char>>, ()>
    decreases items.len(),
{
    if items.len() == 0 {
        Ok(Seq::empty())
    } else {
        match items[0] {
            YamlAbs::Str(s) => match parse_output_items(items.drop_first()) {
                Ok(rest) => Ok(seq![s] + rest),
                Err(e) => Err(e),
            },
            _ => Err(()),
        }
    }
}

/// One node of the description: a mapping with a string `id`, an optional
/// string `path`, an optional `inputs` mapping and an optional `outputs`
/// string list.
pub open spec fn parse_node(a: YamlAbs) -> Result<DescAbs, ()> {
    match a {
        YamlAbs::Mapping(es) => {
            let id = find_key(es, "id"@);
            let path = find_key(es, "path"@);
            match id {
                Some(YamlAbs::Str(idv)) => {
                    let pathv = match path {
                        None => Some(None),
                        Some(YamlAbs::Str(p)) => Some(Some(p)),
                        Some(_) => None,
                    };
                    match pathv {
                        None => Err(()),
                        Some(pv) => match parse_outputs(find_key(es, "outputs"@)) {
                            Err(e) => Err(e),
                            Ok(outs) => Ok(
                                DescAbs {
                                    id: idv,
                                    path: pv,
                                    inputs: parse_inputs(find_key(es, "inputs"@)),
                                    outputs: outs,
                                },
                            ),
                        },
                    }
                },
                _ => Err(()),
            }
        },
        _ => Err(()),
    }
}

/// The node descriptions of a list, in order; any malformed node is an
/// error.
pub open spec fn parse_node_items(items: Seq<YamlAbs>) -> Result<Seq<DescAbs>, ()>
    decreases items.len(),
{
    if items.len() == 0 {
        Ok(Seq::empty())
    } else {
        match parse_node(items[0]) {
            Err(e) => Err(e),
            Ok(d) => match parse_node_items(items.drop_first()) {
                Ok(rest) => Ok(seq![d] + rest),
                Err(e) => Err(e),
            },
        }
    }
}

/// A whole document: a mapping whose `nodes` key holds the node list.
pub open spec fn parse_doc(a: YamlAbs) -> Result<Seq<DescAbs>, ()> {
    match a {
        YamlAbs::Mapping(es) => match find_key(es, "nodes"@) {
            Some(YamlAbs::List(items)) => parse_node_items(items),
            _ => Err(()),
        },
        _ => Err(()),
    }
}



/// Unfolds the abstraction of a mapping suffix by one entry.
proof fn lemma_entries_unfold(es: Seq<(YamlTree, YamlTree)>, i: int)
    requires
        0 <= i < es.len(),
    ensures
        yaml_abs_entries(es.skip(i)) == seq![(yaml_abs(es[i].0), yaml_abs(es[i].1))]
            + yaml_abs_entries(es.skip(i + 1)),
        (seq![(yaml_abs(es[i].0), yaml_abs(es[i].1))] + yaml_abs_entries(
            es.skip(i + 1),
        )).drop_first() == yaml_abs_entries(es.skip(i + 1)),
        (seq![(yaml_abs(es[i].0), yaml_abs(es[i].1))] + yaml_abs_entries(es.skip(i + 1)))[0] == (
            yaml_abs(es[i].0),
            yaml_abs(es[i].1),
        ),
{
    assert(es.skip(i)[0] == es[i]);
    assert(es.skip(i).drop_first() =~= es.skip(i + 1));
    let head = (yaml_abs(es[i].0), yaml_abs(es[i].1));
    let rest = yaml_abs_entries(es.skip(i + 1));
    assert((seq![head] + rest).drop_first() =~= rest);
}

/// Unfolds the abstraction of a list suffix by one element.
proof fn lemma_list_unfold(items: Seq<YamlTree>, i: int)
    requires
        0 <= i < items.len(),
    ensures
        yaml_abs_list(items.skip(i)) == seq![yaml_abs(items[i])] + yaml_abs_list(
            items.skip(i + 1),
        ),
        (seq![yaml_abs(items[i])] + yaml_abs_list(items.skip(i + 1))).drop_first()
            == yaml_abs_list(items.skip(i + 1)),
        (seq![yaml_abs(items[i])] + yaml_abs_list(items.skip(i + 1)))[0] == yaml_abs(items[i]),
{
    assert(items.skip(i)[0] == items[i]);
    assert(items.skip(i).drop_first() =~= items.skip(i + 1));
    let rest = yaml_abs_list(items.skip(i + 1));
    assert((seq![yaml_abs(items[i])] + rest).drop_first() =~= rest);
}

/// Finds the value under the first string key equal to `key`, as
/// `find_key` describes.
fn tree_find<'a>(entries: &'a Vec<(YamlTree, YamlTree)>, key: &str) -> (r: Option<&'a YamlTree>)
    ensures
        match r {
            Some(v) => find_key(yaml_abs_entries(entries@), key@) == Some(yaml_abs(*v)),
            None => find_key(yaml_abs_entries(entries@), key@) is None,
        },
{
    let ghost ea = yaml_abs_entries(entries@);
    let mut i: usize = 0;
    proof {
        assert(entries@.skip(0) =~= entries@);
    }
    while i < entries.len()
        invariant
            0 <= i <= entries@.len(),
            ea == yaml_abs_entries(entries@),
            find_key(ea, key@) == find_key(yaml_abs_entries(entries@.skip(i as int)), key@),
        decreases entries@.len() - i,
    {
        proof {
            lemma_entries_unfold(entries@, i as int);
        }
        if let YamlTree::Str(k) = &entries[i].0 {
            if crate::model::str_eq(k.as_str(), key) {
                return Some(&entries[i].1);
            }
        }
        i += 1;
    }
    proof {
        assert(entries@.skip(entries@.len() as int) =~= Seq::<(YamlTree, YamlTree)>::empty());
    }
    None
}

/// Reads the source string of one input declaration, as `source_of`
/// describes.
fn tree_source(v: &YamlTree) -> (r: Option<String>)
    ensures
        match r {
            Some(s) => source_of(yaml_abs(*v)) == Some(s@),
            None => source_of(yaml_abs(*v)) is None,
        },
{
    match v {
        YamlTree::Str(s) => Some(s.clone()),
        YamlTree::Mapping(es) => match tree_find(es, "source") {
            Some(YamlTree::Str(s)) => Some(s.clone()),
            _ => None,
        },
        _ => None,
    }
}

/// Reads a node's input ports, as `parse_inputs` describes.
fn tree_inputs(v: Option<&YamlTree>) -> (r: Vec<(String, Option<String>)>)
    ensures
        inputs_abs(r@) == parse_inputs(match v {
            Some(t) => Some(yaml_abs(*t)),
            None => None,
        }),
{
    let mut r: Vec<(String, Option<String>)> = Vec::new();
    if let Some(YamlTree::Mapping(es)) = v {
        let ghost ea = yaml_abs_entries(es@);
        let mut i: usize = 0;
        proof {
            assert(es@.skip(0) =~= es@);
            assert(inputs_abs(r@) =~= Seq::<(Seq<char>, Option<Seq<char>>)>::empty());
        }
        while i < es.len()
            invariant
                0 <= i <= es@.len(),
                ea == yaml_abs_entries(es@),
                inputs_abs(r@) + inputs_of_entries(yaml_abs_entries(es@.skip(i as int)))
                    == inputs_of_entries(ea),
            decreases es@.len() - i,
        {
            proof {
                lemma_entries_unfold(es@, i as int);
            }
            if let YamlTree::Str(k) = &es[i].0 {
                let src = tree_source(&es[i].1);
                let ghost pre = r@;
                r.push((k.clone(), src));
                proof {
                    assert(inputs_abs(r@) =~= inputs_abs(pre).push(
                        (k@, match src {
                            Some(sv) => Some(sv@),
                            None => None,
                        }),
                    ));
                    assert(inputs_abs(pre).push(
                        (k@, match src {
                            Some(sv) => Some(sv@),
                            None => None,
                        }),
                    ) + inputs_of_entries(yaml_abs_entries(es@.skip(i + 1))) =~= inputs_abs(pre) + (
                    seq![
                        (k@, match src {
                            Some(sv) => Some(sv@),
                            None => None,
                        }),
                    ] + inputs_of_entries(yaml_abs_entries(es@.skip(i + 1)))));
                }
            }
            i += 1;
        }
        proof {
            assert(es@.skip(es@.len() as int) =~= Seq::<(YamlTree, YamlTree)>::empty());
            assert(inputs_abs(r@) + Seq::<(Seq<char>, Option<Seq<char>>)>::empty() =~= inputs_abs(
                r@,
            ));
        }
    }
    r
}

/// The mathematical value of an input list.
pub open spec fn inputs_abs(r: Seq<(String, Option<String>)>) -> Seq<
    (Seq<char>, Option<Seq<char>>),
> {
    r.map_values(
        |p: (String, Option<String>)|
            (
                p.0@,
                match p.1 {
                    Some(s) => Some(s@),
                    None => None,
                },
            ),
    )
}

/// The mathematical value of an output list.
pub open spec fn outputs_abs(r: Seq<String>) -> Seq<Seq<char>> {
    r.map_values(|s: String| s@)
}

/// Reads a node's output ports, as `parse_outputs` describes.
fn tree_outputs(v: Option<&YamlTree>) -> (r: Result<Vec<String>, ()>)
    ensures
        match r {
            Ok(outs) => parse_outputs(match v {
                Some(t) => Some(yaml_abs(*t)),
                None => None,
            }) == Ok::<Seq<Seq<char>>, ()>(outputs_abs(outs@)),
            Err(_) => parse_outputs(match v {
                Some(t) => Some(yaml_abs(*t)),
                None => None,
            }) is Err,
        },
{
    match v {
        None => {
            let r: Vec<String> = Vec::new();
            proof {
                assert(outputs_abs(r@) =~= Seq::<Seq<char>>::empty());
            }
            Ok(r)
        },
        Some(YamlTree::List(items)) => {
            let ghost la = yaml_abs_list(items@);
            let mut outs: Vec<String> = Vec::new();
            let mut i: usize = 0;
            proof {
                assert(items@.skip(0) =~= items@);
                assert(outputs_abs(outs@) =~= Seq::<Seq<char>>::empty());
            }
            while i < items.len()
                invariant
                    0 <= i <= items@.len(),
                    la == yaml_abs_list(items@),
                    parse_outputs(match v {
                        Some(t) => Some(yaml_abs(*t)),
                        None => None,
                    }) == parse_output_items(la),
                    parse_output_items(la) == (match parse_output_items(
                        yaml_abs_list(items@.skip(i as int)),
                    ) {
                        Ok(rest) => Ok::<Seq<Seq<char>>, ()>(outputs_abs(outs@) + rest),
                        Err(e) => Err(e),
                    }),
                decreases items@.len() - i,
            {
                proof {
                    lemma_list_unfold(items@, i as int);
                }
                match &items[i] {
                    YamlTree::Str(sv) => {
                        let ghost pre = outs@;
                        outs.push(sv.clone());
                        proof {
                            assert(outputs_abs(outs@) =~= outputs_abs(pre).push(sv@));
                            if parse_output_items(yaml_abs_list(items@.skip(i + 1))) is Ok {
                                let rest = parse_output_items(
                                    yaml_abs_list(items@.skip(i + 1)),
                                )->Ok_0;
                                assert(outputs_abs(pre) + (seq![sv@] + rest) =~= outputs_abs(outs@)
                                    + rest);
                            }
                        }
                    },
                    _ => {
                        return Err(());
                    },
                }
                i += 1;
            }
            proof {
                assert(items@.skip(items@.len() as int) =~= Seq::<YamlTree>::empty());
                assert(outputs_abs(outs@) + Seq::<Seq<char>>::empty() =~= outputs_abs(outs@));
            }
            Ok(outs)
        },
        Some(_) => Err(()),
    }
}

/// Reads one node description, as `parse_node` describes.
fn tree_node(t: &YamlTree) -> (r: Result<NodeDesc, ()>)
    ensures
        match r {
            Ok(d) => parse_node(yaml_abs(*t)) == Ok::<DescAbs, ()>(crate::layout::desc_abs(d)),
            Err(_) => parse_node(yaml_abs(*t)) is Err,
        },
{
    let es = match t {
        YamlTree::Mapping(es) => es,
        _ => {
            return Err(());
        },
    };
    let id = match tree_find(es, "id") {
        Some(YamlTree::Str(idv)) => idv.clone(),
        _ => {
            return Err(());
        },
    };
    let path = match tree_find(es, "path") {
        None => None,
        Some(YamlTree::Str(p)) => Some(p.clone()),
        Some(_) => {
            return Err(());
        },
    };
    let outputs = match tree_outputs(tree_find(es, "outputs")) {
        Ok(outs) => outs,
        Err(_) => {
            return Err(());
        },
    };
    let inputs = tree_inputs(tree_find(es, "inputs"));
    let d = NodeDesc { id, path, inputs, outputs };
    proof {
        assert(crate::layout::desc_abs(d).inputs =~= inputs_abs(d.inputs@));
        assert(crate::layout::desc_abs(d).outputs =~= outputs_abs(d.outputs@));
    }
    Ok(d)
}

/// Reads the whole description, as `parse_doc` describes.
fn tree_descs(t: &YamlTree) -> (r: Result<Vec<NodeDesc>, ()>)
    ensures
        match r {
            Ok(ds) => parse_doc(yaml_abs(*t)) == Ok::<Seq<DescAbs>, ()>(
                crate::layout::descs_abs(ds@),
            ),
            Err(_) => parse_doc(yaml_abs(*t)) is Err,
        },
{
    let es = match t {
        YamlTree::Mapping(es) => es,
        _ => {
            return Err(());
        },
    };
    let items = match tree_find(es, "nodes") {
        Some(YamlTree::List(items)) => items,
        _ => {
            return Err(());
        },
    };
    let ghost la = yaml_abs_list(items@);
    let mut ds: Vec<NodeDesc> = Vec::new();
    let mut i: usize = 0;
    proof {
        assert(items@.skip(0) =~= items@);
        assert(crate::layout::descs_abs(ds@) =~= Seq::<DescAbs>::empty());
    }
    while i < items.len()
        invariant
            0 <= i <= items@.len(),
            la == yaml_abs_list(items@),
            parse_doc(yaml_abs(*t)) == parse_node_items(la),
            parse_node_items(la) == (match parse_node_items(
                yaml_abs_list(items@.skip(i as int)),
            ) {
                Ok(rest) => Ok::<Seq<DescAbs>, ()>(crate::layout::descs_abs(ds@) + rest),
                Err(e) => Err(e),
            }),
        decreases items@.len() - i,
    {
        proof {
            lemma_list_unfold(items@, i as int);
        }
        match tree_node(&items[i]) {
            Ok(d) => {
                let ghost pre = ds@;
                let ghost dabs = crate::layout::desc_abs(d);
                ds.push(d);
                proof {
                    assert(crate::layout::descs_abs(ds@) =~= crate::layout::descs_abs(pre).push(
                        dabs,
                    ));
                    if parse_node_items(yaml_abs_list(items@.skip(i + 1))) is Ok {
                        let rest = parse_node_items(yaml_abs_list(items@.skip(i + 1)))->Ok_0;
                        assert(crate::layout::descs_abs(pre) + (seq![dabs] + rest)
                            =~= crate::layout::descs_abs(ds@) + rest);
                    }
                }
            },
            Err(_) => {
                return Err(());
            },
        }
        i += 1;
    }
    proof {
        assert(items@.skip(items@.len() as int) =~= Seq::<YamlTree>::empty());
        assert(crate::layout::descs_abs(ds@) + Seq::<DescAbs>::empty() =~= crate::layout::descs_abs(
            ds@,
        ));
    }
    Ok(ds)
}

/// The description is small enough for the layout engine.
pub open spec fn desc_bounded(ds: Seq<DescAbs>) -> bool {
    &&& ds.len() <= crate::layout::MAX_LAYOUT_NODES
    &&& forall|i: int|
        0 <= i < ds.len() ==> (#[trigger] ds[i]).inputs.len() <= crate::model::MAX_PORTS
            && ds[i].outputs.len() <= crate::model::MAX_PORTS
}

/// The bounded description a parsed document yields: nothing when the
/// document has no tree, the tree is not a well-shaped node list, or the
/// description exceeds the layout engine's size bounds.
pub open spec fn description_of(doc: Option<YamlTree>) -> Option<Seq<DescAbs>> {
    match doc {
        None => None,
        Some(t) => match parse_doc(yaml_abs(t)) {
            Ok(ds) => if desc_bounded(ds) {
                Some(ds)
            } else {
                None
            },
            Err(_) => None,
        },
    }
}

/// Parses a dataflow description from YAML and lays it out. Success is owed
/// exactly when the document's tree yields a bounded description, and the
/// graph is then the layout engine's result for that description: every
/// node placed by the barycenter layout, every resolved input source an
/// edge. A document the parser rejects, one that is not a well-shaped node
/// list, or one too large for the layout engine is an error, and nothing
/// is built.
pub fn parse_dataflow(yaml: &str) -> (r: Result<
    (Vec<crate::model::FlowNode>, Vec<crate::model::EdgeConnection>),
    String,
>)
    ensures
        r matches Ok(g) ==> description_of(yaml_doc_of(yaml@)) matches Some(ds)
            && crate::layout::laid_out(g.0@, g.1@, ds),
        r is Err ==> description_of(yaml_doc_of(yaml@)) is None,
{
    let tree = match parse_document(yaml) {
        Ok(t) => t,
        Err(e) => {
            return Err(e);
        },
    };
    let descs = match tree_descs(&tree) {
        Ok(ds) => ds,
        Err(_) => {
            return Err("the dataflow description is malformed".to_owned());
        },
    };
    let ghost ds = crate::layout::descs_abs(descs@);
    proof {
        assert(description_of(yaml_doc_of(yaml@)) == if desc_bounded(ds) {
            Some(ds)
        } else {
            None::<Seq<DescAbs>>
        });
    }
    if descs.len() > crate::layout::MAX_LAYOUT_NODES {
        proof {
            assert(ds.len() > crate::layout::MAX_LAYOUT_NODES);
            assert(!desc_bounded(ds));
            assert(description_of(yaml_doc_of(yaml@)) is None);
        }
        return Err("the dataflow description is too large".to_owned());
    }
    let mut i: usize = 0;
    while i < descs.len()
        invariant
            0 <= i <= descs@.len(),
            ds == crate::layout::descs_abs(descs@),
            ds.len() <= crate::layout::MAX_LAYOUT_NODES,
            description_of(yaml_doc_of(yaml@)) == (if desc_bounded(ds) {
                Some(ds)
            } else {
                None::<Seq<DescAbs>>
            }),
            forall|q: int|
                0 <= q < i ==> (#[trigger] descs@[q]).inputs@.len() <= crate::model::MAX_PORTS
                    && descs@[q].outputs@.len() <= crate::model::MAX_PORTS,
        decreases descs@.len() - i,
    {
        if descs[i].inputs.len() > crate::model::MAX_PORTS || descs[i].outputs.len()
            > crate::model::MAX_PORTS {
            proof {
                assert(ds[i as int].inputs.len() > crate::model::MAX_PORTS || ds[
                    i as int
                ].outputs.len() > crate::model::MAX_PORTS);
                assert(!desc_bounded(ds));
                assert(description_of(yaml_doc_of(yaml@)) is None);
            }
            return Err("the dataflow description is too large".to_owned());
        }
        i += 1;
    }
    let g = crate::layout::layout_dataflow(&descs);
    proof {
        assert(desc_bounded(ds));
        assert(crate::layout::laid_out(g.0@, g.1@, ds));
        assert(description_of(yaml_doc_of(yaml@)) == Some(ds));
    }
    Ok(g)
}

} // verus!
