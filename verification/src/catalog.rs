//! Node kinds known to the media runtime and the port templates they declare.

use crate::search::{distinct, lemma_position_absent, lemma_position_found, position, Text};
use vstd::prelude::*;

verus! {

/// The way data flows through a port.
#[derive(Clone, Copy, Debug, PartialEq, Eq, Structural)]
pub enum PortDirection {
    Input,
    Output,
}

/// When the ports of a template exist.
#[derive(Clone, Copy, Debug, PartialEq, Eq, Structural)]
pub enum PortPresence {
    /// The port exists as long as its node does.
    Always,
    /// Ports appear while the node runs.
    Sometimes,
    /// Ports are created when asked for.
    Request,
}

/// A port template of a node kind.
#[derive(Debug)]
pub struct PortTemplate {
    pub name: String,
    pub direction: PortDirection,
    pub presence: PortPresence,
}

/// What contracts say of a [`PortTemplate`].
pub struct TemplateModel {
    pub name: Text,
    pub direction: PortDirection,
    pub presence: PortPresence,
}

impl View for PortTemplate {
    type V = TemplateModel;

    open spec fn view(&self) -> TemplateModel {
        TemplateModel { name: self.name@, direction: self.direction, presence: self.presence }
    }
}

impl Clone for PortTemplate {
    fn clone(&self) -> (copy: Self)
        ensures
            copy@ == self@,
    {
        PortTemplate {
            name: self.name.clone(),
            direction: self.direction,
            presence: self.presence,
        }
    }
}

impl PortTemplate {
    pub fn new(name: &str, direction: PortDirection, presence: PortPresence) -> (template: Self)
        ensures
            template@ == (TemplateModel { name: name@, direction, presence }),
    {
        PortTemplate { name: name.to_owned(), direction, presence }
    }
}

/// The views of a run of templates, in order.
pub open spec fn template_models(templates: Seq<PortTemplate>) -> Seq<TemplateModel> {
    templates.map_values(|t: PortTemplate| t@)
}

/// The names of a run of templates, in order.
pub open spec fn template_names(templates: Seq<TemplateModel>) -> Seq<Text> {
    templates.map_values(|t: TemplateModel| t.name)
}

/// No two templates of the run share a name.
pub open spec fn distinct_templates(templates: Seq<TemplateModel>) -> bool {
    distinct(template_names(templates))
}

/// A kind of node: its name and the port templates every node of it has.
#[derive(Debug)]
pub struct NodeKind {
    name: String,
    templates: Vec<PortTemplate>,
}

/// What contracts say of a [`NodeKind`].
pub struct KindModel {
    pub name: Text,
    pub templates: Seq<TemplateModel>,
}

impl KindModel {
    /// The templates of a kind have distinct names.
    pub open spec fn wf(self) -> bool {
        distinct_templates(self.templates)
    }
}

impl View for NodeKind {
    type V = KindModel;

    closed spec fn view(&self) -> KindModel {
        KindModel { name: self.name@, templates: template_models(self.templates@) }
    }
}

/// A copy of `templates`, one template after the other.
pub fn clone_templates(templates: &Vec<PortTemplate>) -> (copy: Vec<PortTemplate>)
    ensures
        template_models(copy@) == template_models(templates@),
{
    let mut copy: Vec<PortTemplate> = Vec::new();
    let mut i: usize = 0;
    while i < templates.len()
        invariant
            i <= templates.len(),
            copy.len() == i,
            forall|k: int| 0 <= k < i ==> copy[k]@ == templates[k]@,
        decreases templates.len() - i,
    {
        copy.push(templates[i].clone());
        i += 1;
    }
    assert(template_models(copy@) =~= template_models(templates@));
    copy
}

/// Whether one of the first `upto` templates is called `name`.
fn named_before(templates: &Vec<PortTemplate>, upto: usize, name: &String) -> (found: bool)
    requires
        upto <= templates.len(),
    ensures
        found == exists|k: int| 0 <= k < upto && templates[k].name@ == name@,
{
    let mut k: usize = 0;
    while k < upto
        invariant
            k <= upto <= templates.len(),
            forall|j: int| 0 <= j < k ==> templates[j].name@ != name@,
        decreases upto - k,
    {
        if templates[k].name == *name {
            return true;
        }
        k += 1;
    }
    false
}

impl NodeKind {
    /// The templates of a kind have distinct names.
    #[verifier::type_invariant]
    pub open spec fn inv(self) -> bool {
        self@.wf()
    }

    /// A kind called `name` with the given templates; `None` where two of them
    /// share a name.
    pub fn new(name: &str, templates: Vec<PortTemplate>) -> (kind: Option<Self>)
        ensures
            kind is Some <==> distinct_templates(template_models(templates@)),
            kind matches Some(k) ==> k@ == (KindModel {
                name: name@,
                templates: template_models(templates@),
            }),
    {
        let mut i: usize = 0;
        while i < templates.len()
            invariant
                i <= templates.len(),
                forall|a: int, b: int|
                    0 <= a < b < i ==> (#[trigger] templates[a]).name@ != (
                    #[trigger] templates[b]).name@,
            decreases templates.len() - i,
        {
            if named_before(&templates, i, &templates[i].name) {
                proof {
                    let k = choose|k: int| 0 <= k < i && templates[k].name@ == templates[i as int].name@;
                    let names = template_names(template_models(templates@));
                    assert(names[k] == names[i as int]);
                }
                return None;
            }
            i += 1;
        }
        proof {
            let names = template_names(template_models(templates@));
            assert forall|a: int, b: int| 0 <= a < b < names.len() implies names[a] != names[b] by {
                assert(templates[a].name@ != templates[b].name@);
            }
        }
        Some(NodeKind { name: name.to_owned(), templates })
    }

    pub fn name(&self) -> (name: &String)
        ensures
            name@ == self@.name,
    {
        &self.name
    }

    pub fn templates(&self) -> (templates: &Vec<PortTemplate>)
        ensures
            template_models(templates@) == self@.templates,
    {
        &self.templates
    }
}

impl Clone for NodeKind {
    fn clone(&self) -> (copy: Self)
        ensures
            copy@ == self@,
    {
        proof {
            use_type_invariant(self);
        }
        NodeKind { name: self.name.clone(), templates: clone_templates(&self.templates) }
    }
}

/// The node kinds that the media runtime can construct.
#[derive(Debug)]
pub struct Registry {
    kinds: Vec<NodeKind>,
}

/// The views of a run of kinds, in order.
pub open spec fn kind_models(kinds: Seq<NodeKind>) -> Seq<KindModel> {
    kinds.map_values(|k: NodeKind| k@)
}

/// The names of a run of kinds, in order.
pub open spec fn kind_names(kinds: Seq<KindModel>) -> Seq<Text> {
    kinds.map_values(|k: KindModel| k.name)
}

/// Every kind of the run is well formed.
pub open spec fn kinds_wf(kinds: Seq<KindModel>) -> bool {
    forall|i: int| 0 <= i < kinds.len() ==> (#[trigger] kinds[i]).wf()
}

/// The kind that `name` stands for: the first one of that name.
pub open spec fn find_kind(kinds: Seq<KindModel>, name: Text) -> Option<KindModel> {
    match position(kind_names(kinds), name) {
        Some(i) => Some(kinds[i]),
        None => None,
    }
}

impl View for Registry {
    type V = Seq<KindModel>;

    closed spec fn view(&self) -> Seq<KindModel> {
        kind_models(self.kinds@)
    }
}

impl Registry {
    /// Every kind of a registry is well formed.
    #[verifier::type_invariant]
    pub open spec fn inv(self) -> bool {
        kinds_wf(self@)
    }

    /// A registry that knows no kind.
    pub fn new() -> (registry: Self)
        ensures
            registry@ == Seq::<KindModel>::empty(),
    {
        let kinds: Vec<NodeKind> = Vec::new();
        assert(kind_models(kinds@) =~= Seq::<KindModel>::empty());
        Registry { kinds }
    }

    /// Adds `kind` after the kinds already known. A kind whose name is taken
    /// is kept but never found.
    pub fn define(&mut self, kind: NodeKind)
        ensures
            final(self)@ == old(self)@.push(kind@),
    {
        let known = self.clone();
        let mut kinds = known.kinds;
        proof {
            use_type_invariant(&*self);
            use_type_invariant(&kind);
            let after = old(self)@.push(kind@);
            assert(after =~= kind_models(kinds@.push(kind)));
            assert forall|i: int| 0 <= i < after.len() implies (#[trigger] after[i]).wf() by {
                if i < old(self)@.len() {
                    assert(old(self)@[i].wf());
                }
            }
        }
        kinds.push(kind);
        *self = Registry { kinds };
    }

    /// The number of kinds defined.
    pub fn len(&self) -> (n: usize)
        ensures
            n == self@.len(),
    {
        self.kinds.len()
    }

    /// The kind that `name` stands for.
    pub fn find(&self, name: &str) -> (kind: Option<&NodeKind>)
        ensures
            match kind {
                Some(k) => find_kind(self@, name@) == Some(k@),
                None => find_kind(self@, name@) is None,
            },
    {
        let wanted = name.to_owned();
        let mut i: usize = 0;
        while i < self.kinds.len()
            invariant
                i <= self.kinds.len(),
                wanted@ == name@,
                forall|j: int| 0 <= j < i ==> self.kinds[j]@.name != name@,
            decreases self.kinds.len() - i,
        {
            if self.kinds[i].name == wanted {
                proof {
                    let names = kind_names(self@);
                    assert forall|j: int| 0 <= j < i implies names[j] != name@ by {
                        assert(names[j] == self.kinds[j]@.name);
                    }
                    lemma_position_found(names, name@, i as int);
                }
                return Some(&self.kinds[i]);
            }
            i += 1;
        }
        proof {
            let names = kind_names(self@);
            assert forall|j: int| 0 <= j < names.len() implies names[j] != name@ by {
                assert(names[j] == self.kinds[j]@.name);
            }
            lemma_position_absent(names, name@);
        }
        None
    }
}

impl Clone for Registry {
    fn clone(&self) -> (copy: Self)
        ensures
            copy@ == self@,
    {
        let mut kinds: Vec<NodeKind> = Vec::new();
        let mut i: usize = 0;
        while i < self.kinds.len()
            invariant
                i <= self.kinds.len(),
                kinds.len() == i,
                forall|k: int| 0 <= k < i ==> kinds[k]@ == self.kinds[k]@,
            decreases self.kinds.len() - i,
        {
            kinds.push(self.kinds[i].clone());
            i += 1;
        }
        proof {
            use_type_invariant(self);
            assert(kind_models(kinds@) =~= self@);
        }
        Registry { kinds }
    }
}

} // verus!
