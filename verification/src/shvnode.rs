//! The node tree router: a tree of named nodes, each exposing method
//! processors, reached by slash-delimited paths. Path resolution walks the
//! tree segment by segment and stops at the deepest matched node; the
//! unmatched suffix is handed to that node's processors as the local path.
//! "dir" and "ls" introspection are answered by the router itself; any
//! other method is dispatched to the first processor that declares it.

use vstd::prelude::*;
use vstd::string::StringExecFns;
use crate::message::{Message, MessageView, RpcError, RPC_ERROR_METHOD_CALL_EXCEPTION};
use crate::metamethod::{MetaMethod, MetaMethodView, Signature, dir_attributes_view};
use crate::metamethod::FLAG_IS_GETTER;
use crate::strings::{strings_view, split_segments, join_segments};
use crate::value::{RpcValue, ValueView, list_view, lemma_list_view};

verus! {

/// Bit of the "ls" attribute mask asking for (name, has-children) pairs
/// instead of bare names.
pub const LS_ATTR_HAS_CHILDREN: u32 = 1;

/// Why the router refused a request. Every variant is turned into an error
/// response; none of them ever crashes the handling loop.
#[derive(Debug, PartialEq)]
pub enum RoutingError {
    /// The frame was not a request.
    NotRequest,
    /// The tree has no root node.
    RootMissing,
    /// A "dir"/"ls" parameter had the wrong shape.
    InvalidParam,
    /// No processor at the resolved node declares the method; carries the
    /// method and the local path it was looked up under.
    UnknownMethod { method: String, path: Vec<String> },
}

/// Mathematical model of a [`RoutingError`].
pub enum RoutingErrorView {
    NotRequest,
    RootMissing,
    InvalidParam,
    UnknownMethod { method: Seq<char>, path: Seq<Seq<char>> },
}

impl View for RoutingError {
    type V = RoutingErrorView;

    open spec fn view(&self) -> RoutingErrorView {
        match self {
            RoutingError::NotRequest => RoutingErrorView::NotRequest,
            RoutingError::RootMissing => RoutingErrorView::RootMissing,
            RoutingError::InvalidParam => RoutingErrorView::InvalidParam,
            RoutingError::UnknownMethod { method, path } => RoutingErrorView::UnknownMethod {
                method: method@,
                path: strings_view(path@),
            },
        }
    }
}

/// The message text of a routing error.
pub open spec fn routing_error_text(e: RoutingErrorView) -> Seq<char> {
    match e {
        RoutingErrorView::NotRequest => "Not request"@,
        RoutingErrorView::RootMissing => "Root node is not set"@,
        RoutingErrorView::InvalidParam => "Invalid parameter"@,
        RoutingErrorView::UnknownMethod { method, path } => "Unknown method: "@ + method
            + " on path: "@ + join_segments(path),
    }
}

impl RoutingError {
    /// Renders the error as its message text.
    pub fn text(&self) -> (r: String)
        ensures
            r@ == routing_error_text(self@),
    {
        match self {
            RoutingError::NotRequest => "Not request".to_owned(),
            RoutingError::RootMissing => "Root node is not set".to_owned(),
            RoutingError::InvalidParam => "Invalid parameter".to_owned(),
            RoutingError::UnknownMethod { method, path } => {
                let mut out = "Unknown method: ".to_owned();
                out.append(method.as_str());
                out.append(" on path: ");
                out.append(crate::strings::join_shv_path(path).as_str());
                out
            },
        }
    }

    /// The error as it is sent back: a method-call exception carrying the
    /// message text.
    pub fn to_rpc_error(&self) -> (r: RpcError)
        ensures
            r@.code == RPC_ERROR_METHOD_CALL_EXCEPTION,
            r@.message == routing_error_text(self@),
    {
        RpcError::new(RPC_ERROR_METHOD_CALL_EXCEPTION, self.text())
    }
}

/// The fixed device processor: answers the application name and device id,
/// declares the command-execution method, and defers its execution.
pub struct DeviceNodeRequestProcessor {
    pub app_name: String,
    pub device_id: String,
}

/// A method processor: the per-node behaviour a node dispatches calls to.
/// The variants are the processor kinds the application builds its trees
/// from.
pub enum RpcMethodProcessor {
    Device(DeviceNodeRequestProcessor),
}

/// Mathematical model of an [`RpcMethodProcessor`].
pub enum ProcessorView {
    Device { app_name: Seq<char>, device_id: Seq<char> },
}

/// Model of a processor.
pub open spec fn processor_view(p: RpcMethodProcessor) -> ProcessorView {
    match p {
        RpcMethodProcessor::Device(d) => ProcessorView::Device {
            app_name: d.app_name@,
            device_id: d.device_id@,
        },
    }
}

impl View for RpcMethodProcessor {
    type V = ProcessorView;

    open spec fn view(&self) -> ProcessorView {
        processor_view(*self)
    }
}

/// Models of the processors in a list, in order.
pub open spec fn procs_view(ps: Seq<RpcMethodProcessor>) -> Seq<ProcessorView> {
    Seq::new(ps.len(), |i: int| processor_view(ps[i]))
}

/// A node of the namespace: its name, its processors, and its exclusively
/// owned children.
pub struct TreeNode {
    pub name: String,
    pub processors: Vec<RpcMethodProcessor>,
    pub child_nodes: Vec<TreeNode>,
}

/// Mathematical model of a [`TreeNode`].
pub struct TreeNodeView {
    pub name: Seq<char>,
    pub processors: Seq<ProcessorView>,
    pub children: Seq<TreeNodeView>,
}

/// Model of a node.
pub open spec fn node_view(n: TreeNode) -> TreeNodeView
    decreases n,
    via node_view_decreases
{
    TreeNodeView {
        name: n.name@,
        processors: procs_view(n.processors@),
        children: nodes_view(n.child_nodes@),
    }
}

/// Models of the nodes in a list, in order.
pub open spec fn nodes_view(ns: Seq<TreeNode>) -> Seq<TreeNodeView>
    decreases ns,
{
    if ns.len() == 0 {
        Seq::empty()
    } else {
        seq![node_view(ns[0])] + nodes_view(ns.drop_first())
    }
}

#[via_fn]
proof fn node_view_decreases(n: TreeNode) {
    broadcast use vstd::std_specs::vec::axiom_vec_decreases_to_view;

    assert(decreases_to!(n => n.child_nodes));
    assert(decreases_to!(n.child_nodes => n.child_nodes@));
}

impl View for TreeNode {
    type V = TreeNodeView;

    open spec fn view(&self) -> TreeNodeView {
        node_view(*self)
    }
}

/// The model of a node list is as long as the list, node by node.
pub proof fn lemma_nodes_view(ns: Seq<TreeNode>)
    ensures
        nodes_view(ns).len() == ns.len(),
        forall|i: int| 0 <= i < ns.len() ==> #[trigger] nodes_view(ns)[i] == node_view(ns[i]),
    decreases ns.len(),
{
    if ns.len() > 0 {
        lemma_nodes_view(ns.drop_first());
        assert forall|i: int| 0 <= i < ns.len() implies #[trigger] nodes_view(ns)[i] == node_view(
            ns[i],
        ) by {
            if i > 0 {
                assert(ns.drop_first()[i - 1] == ns[i]);
            }
        }
    }
}

/// Whether a processor is a leaf: one that never yields virtual children.
pub open spec fn processor_is_leaf(p: ProcessorView) -> bool {
    match p {
        ProcessorView::Device { .. } => true,
    }
}

/// Whether a node is a leaf: no children, and every processor a leaf.
pub open spec fn node_is_leaf(n: TreeNodeView) -> bool {
    n.children.len() == 0 && forall|i: int|
        0 <= i < n.processors.len() ==> processor_is_leaf(#[trigger] n.processors[i])
}

/// Index of the first child named `name`, if any.
pub open spec fn child_named(children: Seq<TreeNodeView>, name: Seq<char>) -> Option<int>
    decreases children.len(),
{
    if children.len() == 0 {
        None
    } else if children[0].name == name {
        Some(0)
    } else {
        match child_named(children.drop_first(), name) {
            Some(i) => Some(i + 1),
            None => None,
        }
    }
}

/// What an index returned by [`child_named`] means.
pub proof fn lemma_child_named(children: Seq<TreeNodeView>, name: Seq<char>)
    ensures
        match child_named(children, name) {
            Some(i) => 0 <= i < children.len() && children[i].name == name && forall|j: int|
                0 <= j < i ==> (#[trigger] children[j]).name != name,
            None => forall|j: int|
                0 <= j < children.len() ==> (#[trigger] children[j]).name != name,
        },
    decreases children.len(),
{
    if children.len() > 0 && children[0].name != name {
        lemma_child_named(children.drop_first(), name);
        match child_named(children, name) {
            Some(i) => {
                assert(children.drop_first()[i - 1] == children[i]);
                assert forall|j: int| 0 <= j < i implies (#[trigger] children[j]).name
                    != name by {
                    if j > 0 {
                        assert(children.drop_first()[j - 1] == children[j]);
                    }
                }
            },
            None => {
                assert forall|j: int| 0 <= j < children.len() implies (#[trigger] children[j]).name
                    != name by {
                    if j > 0 {
                        assert(children.drop_first()[j - 1] == children[j]);
                    }
                }
            },
        }
    }
}

/// Where a path resolves to: the deepest node matched by walking the
/// segments from `n`, and how many segments were consumed. Resolution never
/// fails: the first unmatched segment stops it at the nearest ancestor.
pub open spec fn resolve(n: TreeNodeView, path: Seq<Seq<char>>) -> (TreeNodeView, int)
    decreases path.len(),
{
    if path.len() == 0 {
        (n, 0)
    } else {
        match child_named(n.children, path[0]) {
            Some(i) => {
                let r = resolve(n.children[i], path.drop_first());
                (r.0, 1 + r.1)
            },
            None => (n, 0),
        }
    }
}

/// Resolution consumes at most the whole path.
pub proof fn lemma_resolve_bounds(n: TreeNodeView, path: Seq<Seq<char>>)
    ensures
        0 <= resolve(n, path).1 <= path.len(),
    decreases path.len(),
{
    if path.len() > 0 {
        match child_named(n.children, path[0]) {
            Some(i) => {
                lemma_resolve_bounds(n.children[i], path.drop_first());
            },
            None => {},
        }
    }
}

impl TreeNode {
    /// Appends a child node.
    pub fn add_child_node(&mut self, nd: TreeNode)
        ensures
            final(self)@ == (TreeNodeView {
                children: old(self)@.children.push(nd@),
                ..old(self)@
            }),
    {
        self.child_nodes.push(nd);
        proof {
            lemma_nodes_view(old(self).child_nodes@.push(nd));
            lemma_nodes_view(old(self).child_nodes@);
            assert(nodes_view(self.child_nodes@) =~= nodes_view(old(self).child_nodes@).push(
                node_view(nd),
            ));
            assert(procs_view(self.processors@) =~= procs_view(old(self).processors@));
        }
    }

    /// Whether this node is a leaf.
    pub fn is_leaf(&self) -> (r: bool)
        ensures
            r == node_is_leaf(self@),
    {
        if !self.child_nodes.is_empty() {
            proof {
                lemma_nodes_view(self.child_nodes@);
            }
            return false;
        }
        proof {
            lemma_nodes_view(self.child_nodes@);
        }
        let mut i: usize = 0;
        while i < self.processors.len()
            invariant
                i <= self.processors@.len(),
                forall|j: int|
                    0 <= j < i ==> processor_is_leaf(#[trigger] procs_view(self.processors@)[j]),
            decreases self.processors@.len() - i,
        {
            let leaf = match &self.processors[i] {
                RpcMethodProcessor::Device(_) => true,
            };
            if !leaf {
                return false;
            }
            i = i + 1;
        }
        true
    }

    /// Walks `path` from this node, starting at segment `from`: returns the
    /// deepest matched node and the index of the first unmatched segment.
    #[verifier::loop_isolation(false)]
    fn cd<'a>(&'a self, path: &Vec<String>, from: usize) -> (r: (&'a TreeNode, usize))
        requires
            from <= path@.len(),
        ensures
            ({
                let rr = resolve(self@, strings_view(path@).skip(from as int));
                r.0@ == rr.0 && r.1 == from + rr.1 && from <= r.1 <= path@.len()
            }),
        decreases path@.len() - from,
    {
        let ghost segs = strings_view(path@).skip(from as int);
        proof {
            lemma_resolve_bounds(self@, segs);
        }
        if from == path.len() {
            proof {
                assert(segs =~= Seq::empty());
            }
            return (self, from);
        }
        proof {
            assert(segs[0] == path@[from as int]@);
            lemma_nodes_view(self.child_nodes@);
        }
        let mut i: usize = 0;
        while i < self.child_nodes.len()
            invariant
                i <= self.child_nodes@.len(),
                from < path@.len(),
                forall|j: int|
                    0 <= j < i ==> (#[trigger] nodes_view(self.child_nodes@)[j]).name != path@[from as int]@,
                nodes_view(self.child_nodes@).len() == self.child_nodes@.len(),
                forall|j: int|
                    0 <= j < self.child_nodes@.len() ==> #[trigger] nodes_view(self.child_nodes@)[j]
                        == node_view(self.child_nodes@[j]),
            decreases self.child_nodes@.len() - i,
        {
            if crate::strings::str_eq(self.child_nodes[i].name.as_str(), path[from].as_str()) {
                proof {
                    lemma_child_named(self@.children, segs[0]);
                    let cn = child_named(self@.children, segs[0]);
                    assert(self@.children[i as int] == node_view(self.child_nodes@[i as int]));
                    assert(self@.children[i as int].name == segs[0]);
                    assert(cn is Some);
                    assert(cn->0 == i as int);
                    assert(segs.drop_first() =~= strings_view(path@).skip(from as int + 1));
                }
                let (nd, consumed) = self.child_nodes[i].cd(path, from + 1);
                return (nd, consumed);
            }
            i = i + 1;
        }
        proof {
            lemma_child_named(self@.children, segs[0]);
            let cn = child_named(self@.children, segs[0]);
            if cn is Some {
                assert(self@.children[cn->0] == node_view(self.child_nodes@[cn->0]));
                assert(false);
            }
        }
        (self, from)
    }
}

/// The namespace: at most one root node, the single entry point for
/// path-based routing.
pub struct NodesTree {
    pub root: Option<TreeNode>,
}

/// The descriptors the device processor advertises on its own node.
pub open spec fn device_descriptor_views() -> Seq<MetaMethodView> {
    seq![
        MetaMethodView {
            name: "dir"@,
            signature: Signature::RetParam,
            flags: 0,
            access_grant: "bws"@,
            description: ""@,
        },
        MetaMethodView {
            name: "ls"@,
            signature: Signature::RetParam,
            flags: 0,
            access_grant: "bws"@,
            description: ""@,
        },
        MetaMethodView {
            name: "appName"@,
            signature: Signature::RetParam,
            flags: FLAG_IS_GETTER,
            access_grant: "bws"@,
            description: ""@,
        },
        MetaMethodView {
            name: "deviceId"@,
            signature: Signature::RetParam,
            flags: FLAG_IS_GETTER,
            access_grant: "rd"@,
            description: ""@,
        },
        MetaMethodView {
            name: "runCmd"@,
            signature: Signature::RetParam,
            flags: 0,
            access_grant: "wr"@,
            description: ""@,
        },
    ]
}

/// The descriptors a processor yields for a local path: the device
/// processor answers on its own node only.
pub open spec fn processor_descriptors(p: ProcessorView, path: Seq<Seq<char>>) -> Seq<
    MetaMethodView,
> {
    match p {
        ProcessorView::Device { .. } => if path.len() == 0 {
            device_descriptor_views()
        } else {
            Seq::empty()
        },
    }
}

/// The virtual children a processor yields for a local path: the device
/// processor has none.
pub open spec fn processor_children(p: ProcessorView, path: Seq<Seq<char>>) -> Seq<
    (Seq<char>, bool),
> {
    match p {
        ProcessorView::Device { .. } => Seq::empty(),
    }
}

/// What a processor's execution of a named method returns. The device
/// processor answers its two getters, defers "runCmd" (the command runs
/// outside and its answer is sent as an independent response), and refuses
/// everything else — "dir" and "ls" are answered by the router, never
/// dispatched here.
pub open spec fn processor_call(
    p: ProcessorView,
    path: Seq<Seq<char>>,
    method: Seq<char>,
    params: Option<ValueView>,
) -> Result<Option<ValueView>, RoutingErrorView> {
    match p {
        ProcessorView::Device { app_name, device_id } => if path.len() == 0 && method
            == "appName"@ {
            Ok(Some(ValueView::Str(app_name)))
        } else if path.len() == 0 && method == "deviceId"@ {
            Ok(Some(ValueView::Str(device_id)))
        } else if path.len() == 0 && method == "runCmd"@ {
            Ok(None)
        } else {
            Err(RoutingErrorView::UnknownMethod { method, path })
        },
    }
}

/// The models of a list of descriptors, in order.
pub open spec fn meta_views(ms: Seq<MetaMethod>) -> Seq<MetaMethodView> {
    Seq::new(ms.len(), |i: int| ms[i]@)
}

/// The models of a list of (name, is-leaf) pairs, in order.
pub open spec fn pairs_view(ps: Seq<(String, bool)>) -> Seq<(Seq<char>, bool)> {
    Seq::new(ps.len(), |i: int| (ps[i].0@, ps[i].1))
}

fn device_methods() -> (r: Vec<MetaMethod>)
    ensures
        meta_views(r@) == device_descriptor_views(),
{
    let mut out: Vec<MetaMethod> = Vec::new();
    out.push(MetaMethod::new("dir", Signature::RetParam, 0, "bws", ""));
    out.push(MetaMethod::new("ls", Signature::RetParam, 0, "bws", ""));
    out.push(MetaMethod::new("appName", Signature::RetParam, FLAG_IS_GETTER, "bws", ""));
    out.push(MetaMethod::new("deviceId", Signature::RetParam, FLAG_IS_GETTER, "rd", ""));
    out.push(MetaMethod::new("runCmd", Signature::RetParam, 0, "wr", ""));
    proof {
        assert(meta_views(out@) =~~= device_descriptor_views());
    }
    out
}

impl RpcMethodProcessor {
    /// The descriptors this processor yields for a local path.
    pub fn dir(&self, path: &Vec<String>) -> (r: Vec<MetaMethod>)
        ensures
            meta_views(r@) == processor_descriptors(self@, strings_view(path@)),
    {
        match self {
            RpcMethodProcessor::Device(_) => {
                if path.len() == 0 {
                    device_methods()
                } else {
                    let r: Vec<MetaMethod> = Vec::new();
                    proof {
                        assert(meta_views(r@) =~= Seq::<MetaMethodView>::empty());
                    }
                    r
                }
            },
        }
    }

    /// The virtual children this processor yields for a local path.
    pub fn ls(&self, path: &Vec<String>) -> (r: Vec<(String, bool)>)
        ensures
            pairs_view(r@) == processor_children(self@, strings_view(path@)),
    {
        match self {
            RpcMethodProcessor::Device(_) => {
                let r: Vec<(String, bool)> = Vec::new();
                proof {
                    assert(pairs_view(r@) =~= Seq::<(Seq<char>, bool)>::empty());
                }
                r
            },
        }
    }

    /// Whether this processor is a leaf.
    pub fn is_leaf(&self) -> (r: bool)
        ensures
            r == processor_is_leaf(self@),
    {
        match self {
            RpcMethodProcessor::Device(_) => true,
        }
    }

    /// Executes a named method. `Ok(None)` means the answer is deferred:
    /// it will be sent later as an independently correlated response.
    pub fn call_method(&self, path: &Vec<String>, method: &str, params: Option<&RpcValue>) -> (r:
        Result<Option<RpcValue>, RoutingError>)
        ensures
            match r {
                Ok(Some(v)) => processor_call(
                    self@,
                    strings_view(path@),
                    method@,
                    crate::message::opt_value_view(
                        match params {
                            Some(p) => Some(*p),
                            None => None,
                        },
                    ),
                ) == Ok::<Option<ValueView>, RoutingErrorView>(Some(v@)),
                Ok(None) => processor_call(
                    self@,
                    strings_view(path@),
                    method@,
                    crate::message::opt_value_view(
                        match params {
                            Some(p) => Some(*p),
                            None => None,
                        },
                    ),
                ) == Ok::<Option<ValueView>, RoutingErrorView>(None),
                Err(e) => processor_call(
                    self@,
                    strings_view(path@),
                    method@,
                    crate::message::opt_value_view(
                        match params {
                            Some(p) => Some(*p),
                            None => None,
                        },
                    ),
                ) == Err::<Option<ValueView>, RoutingErrorView>(e@),
            },
    {
        match self {
            RpcMethodProcessor::Device(d) => {
                if path.len() == 0 && crate::strings::str_eq(method, "appName") {
                    Ok(Some(RpcValue::Str(d.app_name.clone())))
                } else if path.len() == 0 && crate::strings::str_eq(method, "deviceId") {
                    Ok(Some(RpcValue::Str(d.device_id.clone())))
                } else if path.len() == 0 && crate::strings::str_eq(method, "runCmd") {
                    Ok(None)
                } else {
                    Err(
                        RoutingError::UnknownMethod {
                            method: method.to_owned(),
                            path: crate::strings::clone_strings(path),
                        },
                    )
                }
            },
        }
    }
}

/// All descriptors of a node for a local path: each processor's, in
/// processor order.
pub open spec fn descriptors_cat(ps: Seq<ProcessorView>, path: Seq<Seq<char>>) -> Seq<
    MetaMethodView,
>
    decreases ps.len(),
{
    if ps.len() == 0 {
        Seq::empty()
    } else {
        processor_descriptors(ps[0], path) + descriptors_cat(ps.drop_first(), path)
    }
}

proof fn lemma_descriptors_cat_snoc(ps: Seq<ProcessorView>, p: ProcessorView, path: Seq<Seq<char>>)
    ensures
        descriptors_cat(ps.push(p), path) =~= descriptors_cat(ps, path) + processor_descriptors(
            p,
            path,
        ),
    decreases ps.len(),
{
    if ps.len() == 0 {
        reveal_with_fuel(descriptors_cat, 2);
        assert(ps.push(p)[0] == p);
        assert(ps.push(p).drop_first() =~= Seq::empty());
        assert(descriptors_cat(ps, path) =~= Seq::<MetaMethodView>::empty());
    } else {
        lemma_descriptors_cat_snoc(ps.drop_first(), p, path);
        assert(ps.push(p)[0] == ps[0]);
        assert(ps.push(p).drop_first() =~= ps.drop_first().push(p));
        let h = processor_descriptors(ps[0], path);
        assert(h + (descriptors_cat(ps.drop_first(), path) + processor_descriptors(p, path)) =~= (h
            + descriptors_cat(ps.drop_first(), path)) + processor_descriptors(p, path));
    }
}

/// Index of the first descriptor named `name`, if any.
pub open spec fn first_named(descs: Seq<MetaMethodView>, name: Seq<char>) -> Option<int>
    decreases descs.len(),
{
    if descs.len() == 0 {
        None
    } else if descs[0].name == name {
        Some(0)
    } else {
        match first_named(descs.drop_first(), name) {
            Some(i) => Some(i + 1),
            None => None,
        }
    }
}

/// What an index returned by [`first_named`] means.
pub proof fn lemma_first_named(descs: Seq<MetaMethodView>, name: Seq<char>)
    ensures
        match first_named(descs, name) {
            Some(i) => 0 <= i < descs.len() && descs[i].name == name && forall|j: int|
                0 <= j < i ==> (#[trigger] descs[j]).name != name,
            None => forall|j: int|
                0 <= j < descs.len() ==> (#[trigger] descs[j]).name != name,
        },
    decreases descs.len(),
{
    if descs.len() > 0 && descs[0].name != name {
        lemma_first_named(descs.drop_first(), name);
        match first_named(descs, name) {
            Some(i) => {
                assert(descs.drop_first()[i - 1] == descs[i]);
                assert forall|j: int| 0 <= j < i implies (#[trigger] descs[j]).name != name by {
                    if j > 0 {
                        assert(descs.drop_first()[j - 1] == descs[j]);
                    }
                }
            },
            None => {
                assert forall|j: int| 0 <= j < descs.len() implies (#[trigger] descs[j]).name
                    != name by {
                    if j > 0 {
                        assert(descs.drop_first()[j - 1] == descs[j]);
                    }
                }
            },
        }
    }
}

/// Each descriptor rendered under the attribute mask, in order.
pub open spec fn render_descs(descs: Seq<MetaMethodView>, attrs: u8) -> Seq<ValueView> {
    Seq::new(descs.len(), |i: int| dir_attributes_view(descs[i], attrs))
}

/// What "dir" answers: with an empty filter, every descriptor of the node
/// rendered in declared order; with a filter, the first exact match alone,
/// or nothing.
pub open spec fn dir_result(
    n: TreeNodeView,
    path: Seq<Seq<char>>,
    pattern: Seq<char>,
    attrs: u8,
) -> ValueView {
    let descs = descriptors_cat(n.processors, path);
    if pattern.len() == 0 {
        ValueView::List(render_descs(descs, attrs))
    } else {
        match first_named(descs, pattern) {
            Some(i) => ValueView::List(seq![dir_attributes_view(descs[i], attrs)]),
            None => ValueView::List(Seq::empty()),
        }
    }
}

impl TreeNode {
    /// All descriptors this node's processors yield for a local path.
    #[verifier::loop_isolation(false)]
    fn dir_descriptors(&self, path: &Vec<String>) -> (r: Vec<MetaMethod>)
        ensures
            meta_views(r@) == descriptors_cat(self@.processors, strings_view(path@)),
    {
        let ghost pv = self@.processors;
        let mut out: Vec<MetaMethod> = Vec::new();
        let mut i: usize = 0;
        proof {
            assert(pv.take(0) =~= Seq::empty());
            assert(meta_views(out@) =~= descriptors_cat(pv.take(0), strings_view(path@)));
        }
        while i < self.processors.len()
            invariant
                i <= self.processors@.len(),
                meta_views(out@) =~= descriptors_cat(pv.take(i as int), strings_view(path@)),
            decreases self.processors@.len() - i,
        {
            let mut ds = self.processors[i].dir(path);
            proof {
                lemma_descriptors_cat_snoc(pv.take(i as int), pv[i as int], strings_view(path@));
                assert(pv.take(i + 1) =~= pv.take(i as int).push(pv[i as int]));
            }
            out.append(&mut ds);
            proof {
                assert(meta_views(out@) =~= descriptors_cat(pv.take(i + 1), strings_view(path@)));
            }
            i = i + 1;
        }
        proof {
            assert(pv.take(pv.len() as int) =~= pv);
        }
        out
    }

    /// Answers "dir" on this node: parse-free introspection over the local
    /// path, a name filter and an attribute mask.
    #[verifier::loop_isolation(false)]
    pub fn dir(&self, path: &Vec<String>, method_pattern: &str, attrs: u8) -> (r: RpcValue)
        ensures
            r@ == dir_result(self@, strings_view(path@), method_pattern@, attrs),
    {
        let descs = self.dir_descriptors(path);
        let ghost dv = meta_views(descs@);
        let mut out: Vec<RpcValue> = Vec::new();
        if method_pattern.is_empty() {
            let mut i: usize = 0;
            proof {
                lemma_list_view(out@);
                assert(list_view(out@) =~= render_descs(dv, attrs).take(0));
            }
            while i < descs.len()
                invariant
                    i <= descs@.len(),
                    list_view(out@) =~= render_descs(dv, attrs).take(i as int),
                decreases descs@.len() - i,
            {
                let rendered = descs[i].dir_attributes(attrs);
                let ghost prev = out@;
                out.push(rendered);
                proof {
                    lemma_list_view(prev);
                    lemma_list_view(out@);
                    assert(list_view(out@) =~= render_descs(dv, attrs).take(i + 1));
                }
                i = i + 1;
            }
            proof {
                assert(render_descs(dv, attrs).take(dv.len() as int) =~= render_descs(dv, attrs));
            }
            RpcValue::List(out)
        } else {
            let mut i: usize = 0;
            while i < descs.len()
                invariant
                    i <= descs@.len(),
                    out@.len() == 0,
                    forall|j: int| 0 <= j < i ==> (#[trigger] dv[j]).name != method_pattern@,
                decreases descs@.len() - i,
            {
                if crate::strings::str_eq(descs[i].name.as_str(), method_pattern) {
                    let rendered = descs[i].dir_attributes(attrs);
                    out.push(rendered);
                    proof {
                        lemma_first_named(dv, method_pattern@);
                        let fi = first_named(dv, method_pattern@);
                        assert(dv[i as int].name == method_pattern@);
                        assert(fi is Some);
                        assert(fi->0 == i as int);
                        lemma_list_view(out@);
                        assert(list_view(out@) =~= seq![
                            dir_attributes_view(dv[i as int], attrs),
                        ]);
                    }
                    return RpcValue::List(out);
                }
                i = i + 1;
            }
            proof {
                lemma_first_named(dv, method_pattern@);
                let fi = first_named(dv, method_pattern@);
                if fi is Some {
                    assert(false);
                }
                lemma_list_view(out@);
                assert(list_view(out@) =~= Seq::<ValueView>::empty());
            }
            RpcValue::List(out)
        }
    }
}

/// The virtual children of a node for a local path: each non-leaf
/// processor's, in processor order.
pub open spec fn virt_children_cat(ps: Seq<ProcessorView>, path: Seq<Seq<char>>) -> Seq<
    (Seq<char>, bool),
>
    decreases ps.len(),
{
    if ps.len() == 0 {
        Seq::empty()
    } else {
        (if processor_is_leaf(ps[0]) {
            Seq::empty()
        } else {
            processor_children(ps[0], path)
        }) + virt_children_cat(ps.drop_first(), path)
    }
}

proof fn lemma_virt_children_cat_snoc(
    ps: Seq<ProcessorView>,
    p: ProcessorView,
    path: Seq<Seq<char>>,
)
    ensures
        virt_children_cat(ps.push(p), path) =~= virt_children_cat(ps, path) + (
        if processor_is_leaf(p) {
            Seq::empty()
        } else {
            processor_children(p, path)
        }),
    decreases ps.len(),
{
    if ps.len() == 0 {
        reveal_with_fuel(virt_children_cat, 2);
        assert(ps.push(p)[0] == p);
        assert(ps.push(p).drop_first() =~= Seq::empty());
        assert(virt_children_cat(ps, path) =~= Seq::<(Seq<char>, bool)>::empty());
    } else {
        lemma_virt_children_cat_snoc(ps.drop_first(), p, path);
        assert(ps.push(p)[0] == ps[0]);
        assert(ps.push(p).drop_first() =~= ps.drop_first().push(p));
        let h = if processor_is_leaf(ps[0]) {
            Seq::empty()
        } else {
            processor_children(ps[0], path)
        };
        let t = if processor_is_leaf(p) {
            Seq::empty()
        } else {
            processor_children(p, path)
        };
        assert(h + (virt_children_cat(ps.drop_first(), path) + t) =~= (h + virt_children_cat(
            ps.drop_first(),
            path,
        )) + t);
    }
}

/// The (name, is-leaf) entries of a node's actual children, in order.
pub open spec fn child_entries(children: Seq<TreeNodeView>) -> Seq<(Seq<char>, bool)> {
    Seq::new(children.len(), |i: int| (children[i].name, node_is_leaf(children[i])))
}

/// Everything "ls" enumerates at a node: the virtual children of every
/// non-leaf processor, then the actual child nodes, in order.
pub open spec fn ls_items(n: TreeNodeView, path: Seq<Seq<char>>) -> Seq<(Seq<char>, bool)> {
    virt_children_cat(n.processors, path) + child_entries(n.children)
}

/// How one "ls" entry is rendered: the bare name, or the (name,
/// has-children) pair when the has-children bit is set.
pub open spec fn ls_entry_view(item: (Seq<char>, bool), with_children: bool) -> ValueView {
    if with_children {
        ValueView::List(seq![ValueView::Str(item.0), ValueView::Bool(!item.1)])
    } else {
        ValueView::Str(item.0)
    }
}

/// The entries kept by the name filter, rendered in order: an empty filter
/// keeps everything, a non-empty one exactly the names equal to it.
pub open spec fn ls_render(
    items: Seq<(Seq<char>, bool)>,
    pattern: Seq<char>,
    with_children: bool,
) -> Seq<ValueView>
    decreases items.len(),
{
    if items.len() == 0 {
        Seq::empty()
    } else {
        (if pattern.len() == 0 || items[0].0 == pattern {
            seq![ls_entry_view(items[0], with_children)]
        } else {
            Seq::empty()
        }) + ls_render(items.drop_first(), pattern, with_children)
    }
}

proof fn lemma_ls_render_snoc(
    items: Seq<(Seq<char>, bool)>,
    it: (Seq<char>, bool),
    pattern: Seq<char>,
    with_children: bool,
)
    ensures
        ls_render(items.push(it), pattern, with_children) =~= ls_render(
            items,
            pattern,
            with_children,
        ) + (if pattern.len() == 0 || it.0 == pattern {
            seq![ls_entry_view(it, with_children)]
        } else {
            Seq::empty()
        }),
    decreases items.len(),
{
    if items.len() == 0 {
        reveal_with_fuel(ls_render, 2);
        assert(items.push(it)[0] == it);
        assert(items.push(it).drop_first() =~= Seq::empty());
        assert(ls_render(items, pattern, with_children) =~= Seq::<ValueView>::empty());
    } else {
        lemma_ls_render_snoc(items.drop_first(), it, pattern, with_children);
        assert(items.push(it)[0] == items[0]);
        assert(items.push(it).drop_first() =~= items.drop_first().push(it));
        let h = if pattern.len() == 0 || items[0].0 == pattern {
            seq![ls_entry_view(items[0], with_children)]
        } else {
            Seq::empty()
        };
        let t = if pattern.len() == 0 || it.0 == pattern {
            seq![ls_entry_view(it, with_children)]
        } else {
            Seq::empty()
        };
        assert(h + (ls_render(items.drop_first(), pattern, with_children) + t) =~= (h + ls_render(
            items.drop_first(),
            pattern,
            with_children,
        )) + t);
    }
}

proof fn lemma_ls_render_concat(
    a: Seq<(Seq<char>, bool)>,
    b: Seq<(Seq<char>, bool)>,
    pattern: Seq<char>,
    with_children: bool,
)
    ensures
        ls_render(a + b, pattern, with_children) =~= ls_render(a, pattern, with_children)
            + ls_render(b, pattern, with_children),
    decreases a.len(),
{
    if a.len() == 0 {
        assert(a + b =~= b);
        assert(ls_render(a, pattern, with_children) =~= Seq::<ValueView>::empty());
    } else {
        lemma_ls_render_concat(a.drop_first(), b, pattern, with_children);
        assert((a + b)[0] == a[0]);
        assert((a + b).drop_first() =~= a.drop_first() + b);
        let h = if pattern.len() == 0 || a[0].0 == pattern {
            seq![ls_entry_view(a[0], with_children)]
        } else {
            Seq::empty()
        };
        assert(h + (ls_render(a.drop_first(), pattern, with_children) + ls_render(
            b,
            pattern,
            with_children,
        )) =~= (h + ls_render(a.drop_first(), pattern, with_children)) + ls_render(
            b,
            pattern,
            with_children,
        ));
    }
}

/// What "ls" answers: the filtered enumeration of the node's virtual and
/// actual children, as names or (name, has-children) pairs after bit 0 of
/// the attribute mask.
pub open spec fn ls_result(
    n: TreeNodeView,
    path: Seq<Seq<char>>,
    pattern: Seq<char>,
    ls_attrs: u32,
) -> ValueView {
    ValueView::List(ls_render(ls_items(n, path), pattern, (ls_attrs & LS_ATTR_HAS_CHILDREN) != 0))
}

fn ls_entry_value(name: &String, is_leaf: bool, with_children: bool) -> (r: RpcValue)
    ensures
        r@ == ls_entry_view((name@, is_leaf), with_children),
{
    if with_children {
        let mut lst: Vec<RpcValue> = Vec::new();
        lst.push(RpcValue::Str(name.clone()));
        lst.push(RpcValue::Bool(!is_leaf));
        proof {
            lemma_list_view(lst@);
            assert(list_view(lst@) =~= seq![ValueView::Str(name@), ValueView::Bool(!is_leaf)]);
        }
        RpcValue::List(lst)
    } else {
        RpcValue::Str(name.clone())
    }
}

impl TreeNode {
    /// Answers "ls" on this node.
    #[verifier::loop_isolation(false)]
    pub fn ls(&self, path: &Vec<String>, name_pattern: &str, ls_attrs: u32) -> (r: RpcValue)
        ensures
            r@ == ls_result(self@, strings_view(path@), name_pattern@, ls_attrs),
    {
        let with_children = ls_attrs & LS_ATTR_HAS_CHILDREN != 0;
        let ghost pv = self@.processors;
        let ghost pathv = strings_view(path@);
        let ghost pat = name_pattern@;
        let mut out: Vec<RpcValue> = Vec::new();
        let mut i: usize = 0;
        proof {
            lemma_list_view(out@);
            assert(pv.take(0) =~= Seq::empty());
            assert(list_view(out@) =~= ls_render(
                virt_children_cat(pv.take(0), pathv),
                pat,
                with_children,
            ));
        }
        while i < self.processors.len()
            invariant
                i <= self.processors@.len(),
                list_view(out@) =~= ls_render(
                    virt_children_cat(pv.take(i as int), pathv),
                    pat,
                    with_children,
                ),
            decreases self.processors@.len() - i,
        {
            proof {
                lemma_virt_children_cat_snoc(pv.take(i as int), pv[i as int], pathv);
                assert(pv.take(i + 1) =~= pv.take(i as int).push(pv[i as int]));
            }
            let leaf = self.processors[i].is_leaf();
            if !leaf {
                let items = self.processors[i].ls(path);
                let ghost iv = pairs_view(items@);
                let ghost before = ls_render(virt_children_cat(pv.take(i as int), pathv), pat, with_children);
                let mut j: usize = 0;
                proof {
                    assert(iv.take(0) =~= Seq::empty());
                    assert(ls_render(iv.take(0), pat, with_children) =~= Seq::<ValueView>::empty());
                    assert(list_view(out@) =~= before + ls_render(iv.take(0), pat, with_children));
                }
                while j < items.len()
                    invariant
                        j <= items@.len(),
                        list_view(out@) =~= before + ls_render(iv.take(j as int), pat, with_children),
                    decreases items@.len() - j,
                {
                    proof {
                        lemma_ls_render_snoc(iv.take(j as int), iv[j as int], pat, with_children);
                        assert(iv.take(j + 1) =~= iv.take(j as int).push(iv[j as int]));
                    }
                    let keep = name_pattern.is_empty() || crate::strings::str_eq(
                        items[j].0.as_str(),
                        name_pattern,
                    );
                    if keep {
                        let entry = ls_entry_value(&items[j].0, items[j].1, with_children);
                        let ghost prev = out@;
                        out.push(entry);
                        proof {
                            lemma_list_view(prev);
                            lemma_list_view(out@);
                            assert(list_view(out@) =~= before + ls_render(
                                iv.take(j + 1),
                                pat,
                                with_children,
                            ));
                        }
                    }
                    j = j + 1;
                }
                proof {
                    assert(iv.take(items@.len() as int) =~= iv);
                    assert(iv =~= processor_children(pv[i as int], pathv));
                    lemma_ls_render_concat(
                        virt_children_cat(pv.take(i as int), pathv),
                        processor_children(pv[i as int], pathv),
                        pat,
                        with_children,
                    );
                    assert(list_view(out@) =~= ls_render(
                        virt_children_cat(pv.take(i + 1), pathv),
                        pat,
                        with_children,
                    ));
                }
            } else {
                proof {
                    assert(virt_children_cat(pv.take(i + 1), pathv) =~= virt_children_cat(
                        pv.take(i as int),
                        pathv,
                    ));
                }
            }
            i = i + 1;
        }
        proof {
            assert(pv.take(pv.len() as int) =~= pv);
            lemma_nodes_view(self.child_nodes@);
        }
        let ghost cv = self@.children;
        let ghost base = ls_render(virt_children_cat(pv, pathv), pat, with_children);
        let ghost ce = child_entries(cv);
        let mut k: usize = 0;
        proof {
            assert(ce.take(0) =~= Seq::empty());
            assert(ls_render(ce.take(0), pat, with_children) =~= Seq::<ValueView>::empty());
            assert(list_view(out@) =~= base + ls_render(ce.take(0), pat, with_children));
        }
        while k < self.child_nodes.len()
            invariant
                k <= self.child_nodes@.len(),
                list_view(out@) =~= base + ls_render(ce.take(k as int), pat, with_children),
            decreases self.child_nodes@.len() - k,
        {
            proof {
                lemma_ls_render_snoc(ce.take(k as int), ce[k as int], pat, with_children);
                assert(ce.take(k + 1) =~= ce.take(k as int).push(ce[k as int]));
                assert(cv[k as int] == node_view(self.child_nodes@[k as int]));
            }
            let child_leaf = self.child_nodes[k].is_leaf();
            let keep = name_pattern.is_empty() || crate::strings::str_eq(
                self.child_nodes[k].name.as_str(),
                name_pattern,
            );
            if keep {
                let entry = ls_entry_value(&self.child_nodes[k].name, child_leaf, with_children);
                let ghost prev = out@;
                out.push(entry);
                proof {
                    lemma_list_view(prev);
                    lemma_list_view(out@);
                    assert(ce[k as int].0 == self.child_nodes@[k as int].name@);
                    assert(ce[k as int].1 == child_leaf);
                    assert(crate::value::value_view(entry) == ls_entry_view(
                        ce[k as int],
                        with_children,
                    ));
                    assert(out@ == prev.push(entry));
                    assert(list_view(out@) =~= list_view(prev).push(
                        crate::value::value_view(entry),
                    ));
                    assert(base + (ls_render(ce.take(k as int), pat, with_children) + seq![
                        ls_entry_view(ce[k as int], with_children),
                    ]) =~= (base + ls_render(ce.take(k as int), pat, with_children)).push(
                        ls_entry_view(ce[k as int], with_children),
                    ));
                    assert(list_view(out@) =~= base + ls_render(
                        ce.take(k + 1),
                        pat,
                        with_children,
                    ));
                }
            }
            k = k + 1;
        }
        proof {
            assert(ce.take(cv.len() as int) =~= ce);
            lemma_ls_render_concat(virt_children_cat(pv, pathv), ce, pat, with_children);
            assert(list_view(out@) =~= ls_render(ls_items(self@, pathv), pat, with_children));
        }
        RpcValue::List(out)
    }
}

/// Index of the first processor whose descriptor set for the local path
/// contains `method`, if any.
pub open spec fn dispatching_processor(
    ps: Seq<ProcessorView>,
    path: Seq<Seq<char>>,
    method: Seq<char>,
) -> Option<int>
    decreases ps.len(),
{
    if ps.len() == 0 {
        None
    } else if first_named(processor_descriptors(ps[0], path), method) is Some {
        Some(0)
    } else {
        match dispatching_processor(ps.drop_first(), path, method) {
            Some(i) => Some(i + 1),
            None => None,
        }
    }
}

/// What an index returned by [`dispatching_processor`] means.
pub proof fn lemma_dispatching_processor(
    ps: Seq<ProcessorView>,
    path: Seq<Seq<char>>,
    method: Seq<char>,
)
    ensures
        match dispatching_processor(ps, path, method) {
            Some(i) => 0 <= i < ps.len() && first_named(
                processor_descriptors(ps[i], path),
                method,
            ) is Some && forall|j: int|
                0 <= j < i ==> first_named(
                    processor_descriptors(#[trigger] ps[j], path),
                    method,
                ) is None,
            None => forall|j: int|
                0 <= j < ps.len() ==> first_named(
                    processor_descriptors(#[trigger] ps[j], path),
                    method,
                ) is None,
        },
    decreases ps.len(),
{
    if ps.len() > 0 && first_named(processor_descriptors(ps[0], path), method) is None {
        lemma_dispatching_processor(ps.drop_first(), path, method);
        match dispatching_processor(ps, path, method) {
            Some(i) => {
                assert(ps.drop_first()[i - 1] == ps[i]);
                assert forall|j: int|
                    0 <= j < i implies first_named(
                    processor_descriptors(#[trigger] ps[j], path),
                    method,
                ) is None by {
                    if j > 0 {
                        assert(ps.drop_first()[j - 1] == ps[j]);
                    }
                }
            },
            None => {
                assert forall|j: int|
                    0 <= j < ps.len() implies first_named(
                    processor_descriptors(#[trigger] ps[j], path),
                    method,
                ) is None by {
                    if j > 0 {
                        assert(ps.drop_first()[j - 1] == ps[j]);
                    }
                }
            },
        }
    }
}

/// What dispatching a method call on a node returns: the first processor
/// that declares the method executes it; when none does, the call fails
/// with an error naming the method and the local path.
pub open spec fn node_call(
    n: TreeNodeView,
    path: Seq<Seq<char>>,
    method: Seq<char>,
    params: Option<ValueView>,
) -> Result<Option<ValueView>, RoutingErrorView> {
    match dispatching_processor(n.processors, path, method) {
        Some(i) => processor_call(n.processors[i], path, method, params),
        None => Err(RoutingErrorView::UnknownMethod { method, path }),
    }
}

impl TreeNode {
    /// Dispatches a method call on this node.
    #[verifier::loop_isolation(false)]
    pub fn call_method(&self, path: &Vec<String>, method: &str, params: Option<&RpcValue>) -> (r:
        Result<Option<RpcValue>, RoutingError>)
        ensures
            ({
                let spec_r = node_call(
                    self@,
                    strings_view(path@),
                    method@,
                    crate::message::opt_value_view(
                        match params {
                            Some(p) => Some(*p),
                            None => None,
                        },
                    ),
                );
                match r {
                    Ok(Some(v)) => spec_r == Ok::<Option<ValueView>, RoutingErrorView>(Some(v@)),
                    Ok(None) => spec_r == Ok::<Option<ValueView>, RoutingErrorView>(None),
                    Err(e) => spec_r == Err::<Option<ValueView>, RoutingErrorView>(e@),
                }
            }),
    {
        let ghost pv = self@.processors;
        let ghost pathv = strings_view(path@);
        let mut i: usize = 0;
        while i < self.processors.len()
            invariant
                i <= self.processors@.len(),
                forall|j: int|
                    0 <= j < i ==> first_named(
                        processor_descriptors(#[trigger] pv[j], pathv),
                        method@,
                    ) is None,
            decreases self.processors@.len() - i,
        {
            let descs = self.processors[i].dir(path);
            let ghost dv = meta_views(descs@);
            let mut j: usize = 0;
            let mut found = false;
            while j < descs.len() && !found
                invariant
                    j <= descs@.len(),
                    found ==> j < descs@.len() && dv[j as int].name == method@,
                    !found ==> forall|l: int| 0 <= l < j ==> (#[trigger] dv[l]).name != method@,
                decreases descs@.len() - j, (if found { 0int } else { 1int }),
            {
                if crate::strings::str_eq(descs[j].name.as_str(), method) {
                    found = true;
                } else {
                    j = j + 1;
                }
            }
            proof {
                lemma_first_named(dv, method@);
            }
            if found {
                proof {
                    lemma_dispatching_processor(pv, pathv, method@);
                    let di = dispatching_processor(pv, pathv, method@);
                    assert(first_named(processor_descriptors(pv[i as int], pathv), method@)
                        is Some);
                    assert(di is Some);
                    assert(di->0 == i as int);
                }
                return self.processors[i].call_method(path, method, params);
            }
            proof {
                let fi = first_named(dv, method@);
                if fi is Some {
                    assert(false);
                }
            }
            i = i + 1;
        }
        proof {
            lemma_dispatching_processor(pv, pathv, method@);
            let di = dispatching_processor(pv, pathv, method@);
            if di is Some {
                assert(false);
            }
        }
        Err(
            RoutingError::UnknownMethod {
                method: method.to_owned(),
                path: crate::strings::clone_strings(path),
            },
        )
    }
}

/// The name filter and attribute mask of a "dir" or "ls" call: nothing
/// means no filter and an empty mask; a list gives the filter first (it
/// must be a string) and the mask second, read as an unsigned 32-bit
/// value; any single non-list value's text form is the filter, with an
/// empty mask.
pub open spec fn dir_ls_params(params: Option<ValueView>) -> Result<
    (Seq<char>, u32),
    RoutingErrorView,
> {
    match params {
        None => Ok((Seq::empty(), 0u32)),
        Some(ValueView::List(items)) => if items.len() == 0 {
            Ok((Seq::empty(), 0u32))
        } else {
            match items[0] {
                ValueView::Str(s) => Ok(
                    (
                        s,
                        if items.len() >= 2 {
                            items[1].as_u32_view() as u32
                        } else {
                            0u32
                        },
                    ),
                ),
                _ => Err(RoutingErrorView::InvalidParam),
            }
        },
        Some(v) => Ok((crate::value::text_view(v), 0u32)),
    }
}

/// Parses the positional parameters of a "dir" or "ls" call.
pub fn parse_filter_params(params: Option<&RpcValue>) -> (r: Result<(String, u32), RoutingError>)
    ensures
        ({
            let spec_r = dir_ls_params(
                match params {
                    Some(p) => Some(p@),
                    None => None,
                },
            );
            match r {
                Ok(pa) => spec_r == Ok::<(Seq<char>, u32), RoutingErrorView>((pa.0@, pa.1)),
                Err(e) => spec_r == Err::<(Seq<char>, u32), RoutingErrorView>(e@),
            }
        }),
{
    match params {
        None => Ok((String::new(), 0)),
        Some(v) => match v {
            RpcValue::List(items) => {
                proof {
                    lemma_list_view(items@);
                }
                if items.len() == 0 {
                    Ok((String::new(), 0))
                } else {
                    match &items[0] {
                        RpcValue::Str(s) => {
                            let attrs: u32 = if items.len() >= 2 {
                                items[1].as_u32()
                            } else {
                                0
                            };
                            Ok((s.clone(), attrs))
                        },
                        _ => Err(RoutingError::InvalidParam),
                    }
                }
            },
            _ => Ok((v.to_text(), 0)),
        },
    }
}

/// The command a deferred "runCmd" call names: a string parameter names it
/// directly; a list parameter names it by its first element, which must be
/// a string. The error is the message the error response carries.
pub open spec fn run_cmd_command_view(params: Option<ValueView>) -> Result<Seq<char>, Seq<char>> {
    match params {
        None => Err("No params"@),
        Some(ValueView::Str(s)) => Ok(s),
        Some(ValueView::List(items)) => if items.len() == 0 {
            Err("Param list is empty"@)
        } else {
            match items[0] {
                ValueView::Str(s) => Ok(s),
                _ => Err("Invalid params"@),
            }
        },
        Some(_) => Err("Invalid params"@),
    }
}

/// Picks the command a deferred "runCmd" call names; the caller only runs
/// it and sends the answer back.
pub fn run_cmd_command(params: Option<&RpcValue>) -> (r: Result<String, String>)
    ensures
        ({
            let spec_r = run_cmd_command_view(
                match params {
                    Some(p) => Some(p@),
                    None => None,
                },
            );
            match r {
                Ok(s) => spec_r == Ok::<Seq<char>, Seq<char>>(s@),
                Err(e) => spec_r == Err::<Seq<char>, Seq<char>>(e@),
            }
        }),
{
    match params {
        None => Err("No params".to_owned()),
        Some(v) => match v {
            RpcValue::Str(s) => Ok(s.clone()),
            RpcValue::List(items) => {
                proof {
                    lemma_list_view(items@);
                }
                if items.len() == 0 {
                    Err("Param list is empty".to_owned())
                } else {
                    match &items[0] {
                        RpcValue::Str(s) => Ok(s.clone()),
                        _ => Err("Invalid params".to_owned()),
                    }
                }
            },
            _ => Err("Invalid params".to_owned()),
        },
    }
}

/// Model of a tree: its optional root.
pub open spec fn tree_view(t: NodesTree) -> Option<TreeNodeView> {
    match t.root {
        Some(n) => Some(node_view(n)),
        None => None,
    }
}

/// What the router answers to a request. `Ok(None)` means a processor
/// deferred its answer: the response will be sent independently, and the
/// router must not synthesize one.
pub open spec fn process_request_view(root: Option<TreeNodeView>, rq: MessageView) -> Result<
    Option<ValueView>,
    RoutingErrorView,
> {
    if !rq.is_request() {
        Err(RoutingErrorView::NotRequest)
    } else {
        match root {
            None => Err(RoutingErrorView::RootMissing),
            Some(rt) => {
                let segs = split_segments(
                    match rq.path {
                        Some(p) => p,
                        None => Seq::empty(),
                    },
                );
                let rr = resolve(rt, segs);
                let local = segs.skip(rr.1);
                let method = rq.method->0;
                if method == "dir"@ {
                    match dir_ls_params(rq.params) {
                        Ok(pa) => Ok(Some(dir_result(rr.0, local, pa.0, (pa.1 % 256) as u8))),
                        Err(e) => Err(e),
                    }
                } else if method == "ls"@ {
                    match dir_ls_params(rq.params) {
                        Ok(pa) => Ok(Some(ls_result(rr.0, local, pa.0, pa.1))),
                        Err(e) => Err(e),
                    }
                } else {
                    node_call(rr.0, local, method, rq.params)
                }
            },
        }
    }
}

/// The empty path resolves to the starting node itself, with nothing
/// consumed: a request on path "" is handled by the root, with an empty
/// local path.
pub proof fn lemma_empty_path_resolves_to_root(n: TreeNodeView)
    ensures
        resolve(n, Seq::empty()) == (n, 0int),
{
}

/// A method that no processor of the resolved node declares is answered
/// with an error naming the method and the local path it was looked up
/// under — the call is never silently dropped.
pub proof fn lemma_undeclared_method_is_named_error(
    n: TreeNodeView,
    path: Seq<Seq<char>>,
    method: Seq<char>,
    params: Option<ValueView>,
)
    requires
        dispatching_processor(n.processors, path, method) is None,
    ensures
        node_call(n, path, method, params) == Err::<Option<ValueView>, RoutingErrorView>(
            RoutingErrorView::UnknownMethod { method, path },
        ),
{
}

impl NodesTree {
    /// Routes one inbound request through the tree: resolves its path,
    /// answers "dir" and "ls" introspection, and dispatches any other
    /// method to the resolved node's processors. `Ok(None)` means the
    /// answer was deferred. Errors are returned, never thrown: the caller
    /// turns them into error responses.
    pub fn process_request(&self, request: &Message) -> (r: Result<Option<RpcValue>, RoutingError>)
        ensures
            ({
                let spec_r = process_request_view(tree_view(*self), request@);
                match r {
                    Ok(Some(v)) => spec_r == Ok::<Option<ValueView>, RoutingErrorView>(Some(v@)),
                    Ok(None) => spec_r == Ok::<Option<ValueView>, RoutingErrorView>(None),
                    Err(e) => spec_r == Err::<Option<ValueView>, RoutingErrorView>(e@),
                }
            }),
    {
        if !request.is_request() {
            return Err(RoutingError::NotRequest);
        }
        let root = match &self.root {
            Some(root) => root,
            None => {
                return Err(RoutingError::RootMissing);
            },
        };
        let path_str: &str = match request.shv_path() {
            Some(p) => p.as_str(),
            None => "",
        };
        proof {
            reveal_strlit("");
            assert(""@ =~= Seq::<char>::empty());
        }
        let path = crate::strings::split_shv_path(path_str);
        let method: &String = match request.method() {
            Some(m) => m,
            None => {
                return Err(RoutingError::NotRequest);
            },
        };
        let ghost segs = split_segments(
            match request@.path {
                Some(p) => p,
                None => Seq::empty(),
            },
        );
        proof {
            assert(strings_view(path@) == segs);
            assert(segs.skip(0) =~= segs);
        }
        let (nd, consumed) = root.cd(&path, 0);
        let local = crate::strings::tail_strings(&path, consumed);
        if crate::strings::str_eq(method.as_str(), "dir") {
            match parse_filter_params(request.params()) {
                Ok((pattern, attrs)) => Ok(
                    Some(nd.dir(&local, pattern.as_str(), (attrs % 256) as u8)),
                ),
                Err(e) => Err(e),
            }
        } else if crate::strings::str_eq(method.as_str(), "ls") {
            match parse_filter_params(request.params()) {
                Ok((pattern, attrs)) => Ok(Some(nd.ls(&local, pattern.as_str(), attrs))),
                Err(e) => Err(e),
            }
        } else {
            nd.call_method(&local, method.as_str(), request.params())
        }
    }
}

} // verus!
