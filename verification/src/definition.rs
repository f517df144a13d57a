//! The static description of one target network: its bootstrap endpoints, the
//! on-disk cache path derived from its name, key material, poll timings, and
//! the boundary-node targets attached to it.

use vstd::prelude::*;
use vstd::string::StrSliceExecFns;
use vstd::string::StringExecFns;

verus! {

/// A named group of scrape addresses with labels, derived from the locally
/// cached registry state and served to an external metrics collector.
#[derive(Debug)]
pub struct TargetGroup {
    pub name: String,
    pub targets: Vec<String>,
    pub labels: Vec<(String, String)>,
    pub job_type: String,
}

pub ghost struct TargetGroupView {
    pub name: Seq<char>,
    pub targets: Seq<Seq<char>>,
    pub labels: Seq<(Seq<char>, Seq<char>)>,
    pub job_type: Seq<char>,
}

impl View for TargetGroup {
    type V = TargetGroupView;

    open spec fn view(&self) -> TargetGroupView {
        TargetGroupView {
            name: self.name@,
            targets: self.targets.deep_view(),
            labels: self.labels.deep_view(),
            job_type: self.job_type@,
        }
    }
}

impl DeepView for TargetGroup {
    type V = TargetGroupView;

    open spec fn deep_view(&self) -> TargetGroupView {
        self.view()
    }
}

/// A boundary-node scrape target attached to one definition.  Its name is
/// unique within that definition.
#[derive(Debug)]
pub struct BoundaryNode {
    pub name: String,
    pub targets: Vec<String>,
    pub custom_labels: Vec<(String, String)>,
    pub job_type: String,
}

pub ghost struct BoundaryNodeView {
    pub name: Seq<char>,
    pub targets: Seq<Seq<char>>,
    pub custom_labels: Seq<(Seq<char>, Seq<char>)>,
    pub job_type: Seq<char>,
}

impl View for BoundaryNode {
    type V = BoundaryNodeView;

    open spec fn view(&self) -> BoundaryNodeView {
        BoundaryNodeView {
            name: self.name@,
            targets: self.targets.deep_view(),
            custom_labels: self.custom_labels.deep_view(),
            job_type: self.job_type@,
        }
    }
}

/// The immutable description of one target network to watch: where to fetch
/// its registry, where to mirror it, the key material to verify it with, and
/// how often to resync.  Only the boundary-node list may grow after
/// construction.
#[derive(Debug)]
pub struct Definition {
    pub name: String,
    pub nns_urls: Vec<String>,
    pub registry_path: String,
    pub public_key: Option<Vec<u8>>,
    pub poll_interval: u64,
    pub registry_query_timeout: u64,
    pub boundary_nodes: Vec<BoundaryNode>,
}

/// The persisted projection of a definition: the same static configuration,
/// without any runtime state.  A snapshot file holds a sequence of these.
#[derive(Debug)]
pub struct FSDefinition {
    pub name: String,
    pub nns_urls: Vec<String>,
    pub registry_path: String,
    pub public_key: Option<Vec<u8>>,
    pub poll_interval: u64,
    pub registry_query_timeout: u64,
    pub boundary_nodes: Vec<BoundaryNode>,
}

/// The static configuration of a definition.  `Definition` and `FSDefinition`
/// both project to this, which makes persist-then-reload equalities direct.
#[verifier::ext_equal]
pub ghost struct DefinitionView {
    pub name: Seq<char>,
    pub nns_urls: Seq<Seq<char>>,
    pub registry_path: Seq<char>,
    pub public_key: Option<Seq<u8>>,
    pub poll_interval: u64,
    pub registry_query_timeout: u64,
    pub boundary_nodes: Seq<BoundaryNodeView>,
}

impl View for Definition {
    type V = DefinitionView;

    open spec fn view(&self) -> DefinitionView {
        DefinitionView {
            name: self.name@,
            nns_urls: self.nns_urls.deep_view(),
            registry_path: self.registry_path@,
            public_key: self.public_key.deep_view(),
            poll_interval: self.poll_interval,
            registry_query_timeout: self.registry_query_timeout,
            boundary_nodes: self.boundary_nodes.deep_view(),
        }
    }
}

impl DeepView for Definition {
    type V = DefinitionView;

    open spec fn deep_view(&self) -> DefinitionView {
        self.view()
    }
}

impl View for FSDefinition {
    type V = DefinitionView;

    open spec fn view(&self) -> DefinitionView {
        DefinitionView {
            name: self.name@,
            nns_urls: self.nns_urls.deep_view(),
            registry_path: self.registry_path@,
            public_key: self.public_key.deep_view(),
            poll_interval: self.poll_interval,
            registry_query_timeout: self.registry_query_timeout,
            boundary_nodes: self.boundary_nodes.deep_view(),
        }
    }
}

impl DeepView for FSDefinition {
    type V = DefinitionView;

    open spec fn deep_view(&self) -> DefinitionView {
        self.view()
    }
}

impl DeepView for BoundaryNode {
    type V = BoundaryNodeView;

    open spec fn deep_view(&self) -> BoundaryNodeView {
        self.view()
    }
}

impl From<Definition> for FSDefinition {
    fn from(definition: Definition) -> (r: FSDefinition) {
        FSDefinition {
            name: definition.name,
            nns_urls: definition.nns_urls,
            registry_path: definition.registry_path,
            public_key: definition.public_key,
            poll_interval: definition.poll_interval,
            registry_query_timeout: definition.registry_query_timeout,
            boundary_nodes: definition.boundary_nodes,
        }
    }
}

impl vstd::std_specs::convert::FromSpecImpl<Definition> for FSDefinition {
    open spec fn obeys_from_spec() -> bool {
        true
    }

    open spec fn from_spec(definition: Definition) -> FSDefinition {
        FSDefinition {
            name: definition.name,
            nns_urls: definition.nns_urls,
            registry_path: definition.registry_path,
            public_key: definition.public_key,
            poll_interval: definition.poll_interval,
            registry_query_timeout: definition.registry_query_timeout,
            boundary_nodes: definition.boundary_nodes,
        }
    }
}

impl From<FSDefinition> for Definition {
    fn from(fs_definition: FSDefinition) -> (r: Definition) {
        Definition {
            name: fs_definition.name,
            nns_urls: fs_definition.nns_urls,
            registry_path: fs_definition.registry_path,
            public_key: fs_definition.public_key,
            poll_interval: fs_definition.poll_interval,
            registry_query_timeout: fs_definition.registry_query_timeout,
            boundary_nodes: fs_definition.boundary_nodes,
        }
    }
}

impl vstd::std_specs::convert::FromSpecImpl<FSDefinition> for Definition {
    open spec fn obeys_from_spec() -> bool {
        true
    }

    open spec fn from_spec(fs_definition: FSDefinition) -> Definition {
        Definition {
            name: fs_definition.name,
            nns_urls: fs_definition.nns_urls,
            registry_path: fs_definition.registry_path,
            public_key: fs_definition.public_key,
            poll_interval: fs_definition.poll_interval,
            registry_query_timeout: fs_definition.registry_query_timeout,
            boundary_nodes: fs_definition.boundary_nodes,
        }
    }
}

/// Persisting a definition and reading it back loses nothing: the two
/// conversions keep every static-configuration field, so the reloaded
/// definition equals the one that was written out.
pub proof fn lemma_definition_persist_round_trip(definition: Definition)
    ensures
        <Definition as vstd::std_specs::convert::FromSpec<FSDefinition>>::from_spec(
            <FSDefinition as vstd::std_specs::convert::FromSpec<Definition>>::from_spec(
                definition,
            ),
        ) == definition,
{
}

/// What a sanitized name does to one character: the path-escaping characters
/// become underscores, everything else is kept.
pub open spec fn sanitize_char(c: char) -> char {
    if c == '.' || c == '/' {
        '_'
    } else {
        c
    }
}

/// The sanitized form of a definition name, safe to use as a single path
/// component under the global cache root.
pub open spec fn sanitized(name: Seq<char>) -> Seq<char> {
    name.map_values(|c: char| sanitize_char(c))
}

/// The cache path of a definition: a direct child of the global root, named
/// after the sanitized definition name.
pub open spec fn cache_path_spec(root: Seq<char>, name: Seq<char>) -> Seq<char> {
    root + seq!['/'] + sanitized(name)
}

/// Relies on str's equality: two string slices are equal exactly when their
/// character sequences are.
#[verifier::external_body]
pub(crate) fn str_eq(a: &str, b: &str) -> (r: bool)
    ensures
        r == (a@ == b@),
{
    a == b
}

/// Relies on String::push: appends the one character to the end of the string.
#[verifier::external_body]
pub(crate) fn push_char(s: &mut String, c: char)
    ensures
        final(s)@ == old(s)@.push(c),
{
    s.push(c)
}

/// Replaces every `.` and `/` in a definition name with `_`, so that the name
/// cannot escape the cache root when used as a path component.
pub fn sanitize_name(name: &str) -> (r: String)
    ensures
        r@ == sanitized(name@),
{
    let n = name.unicode_len();
    let mut r = String::new();
    let mut i: usize = 0;
    while i < n
        invariant
            i <= n,
            n == name@.len(),
            r@ == sanitized(name@.subrange(0, i as int)),
        decreases n - i,
    {
        let c = name.get_char(i);
        if c == '.' || c == '/' {
            push_char(&mut r, '_');
        } else {
            push_char(&mut r, c);
        }
        i = i + 1;
        proof {
            assert(name@.subrange(0, i as int) =~= name@.subrange(0, i - 1).push(
                name@[i - 1],
            ));
            assert(sanitized(name@.subrange(0, i as int)) =~= sanitized(
                name@.subrange(0, i - 1),
            ).push(sanitize_char(name@[i - 1])));
        }
    }
    proof {
        assert(name@.subrange(0, n as int) =~= name@);
    }
    r
}

/// Builds the cache path for a definition name under the global root.
pub fn cache_path(root: &str, name: &str) -> (r: String)
    ensures
        r@ == cache_path_spec(root@, name@),
{
    let mut r = String::from_str(root);
    r.append("/");
    let s = sanitize_name(name);
    r.append(s.as_str());
    proof {
        reveal_strlit("/");
        assert(r@ =~= cache_path_spec(root@, name@));
    }
    r
}

impl Definition {
    /// Accepts a start request's fields and builds the definition, deriving
    /// its cache path from the sanitized name under the global root so that no
    /// name can escape that root.  The boundary-node list starts empty.
    pub fn new(
        nns_urls: Vec<String>,
        global_registry_path: &str,
        name: String,
        public_key: Option<Vec<u8>>,
        poll_interval: u64,
        registry_query_timeout: u64,
    ) -> (r: Definition)
        ensures
            r@ == (DefinitionView {
                name: name@,
                nns_urls: nns_urls.deep_view(),
                registry_path: cache_path_spec(global_registry_path@, name@),
                public_key: public_key.deep_view(),
                poll_interval: poll_interval,
                registry_query_timeout: registry_query_timeout,
                boundary_nodes: Seq::empty(),
            }),
    {
        let registry_path = cache_path(global_registry_path, name.as_str());
        let r = Definition {
            name,
            nns_urls,
            registry_path,
            public_key,
            poll_interval,
            registry_query_timeout,
            boundary_nodes: Vec::new(),
        };
        proof {
            assert(r@.boundary_nodes =~= Seq::<BoundaryNodeView>::empty());
        }
        r
    }
}

/// The sanitized name holds no path separator and no dot, so the cache path
/// adds exactly one new component under the root.
pub proof fn lemma_sanitized_no_separator(name: Seq<char>)
    ensures
        sanitized(name).len() == name.len(),
        forall|i: int|
            0 <= i < sanitized(name).len() ==> sanitized(name)[i] != '/' && sanitized(name)[i]
                != '.',
{
}

/// The cache path is a direct child of the global root: it extends the root by
/// one separator and one component, and that component holds no separator.
pub proof fn lemma_cache_path_direct_child(root: Seq<char>, name: Seq<char>)
    ensures
        cache_path_spec(root, name).len() == root.len() + 1 + name.len(),
        cache_path_spec(root, name).subrange(0, root.len() as int) == root,
        cache_path_spec(root, name)[root.len() as int] == '/',
        forall|i: int|
            root.len() < i < cache_path_spec(root, name).len() ==> cache_path_spec(root, name)[i]
                != '/',
{
    let p = cache_path_spec(root, name);
    assert(p.subrange(0, root.len() as int) =~= root);
    assert forall|i: int| root.len() < i < p.len() implies p[i] != '/' by {
        assert(p[i] == sanitized(name)[i - root.len() - 1]);
    }
}

/// A field-for-field copy of a target group, with the same observable value.
pub fn duplicate_target_group(g: &TargetGroup) -> (r: TargetGroup)
    ensures
        r@ == g@,
{
    let r = TargetGroup {
        name: g.name.clone(),
        targets: duplicate_strings(&g.targets),
        labels: duplicate_label_pairs(&g.labels),
        job_type: g.job_type.clone(),
    };
    proof {
        assert(r@ =~= g@);
    }
    r
}

/// A field-for-field copy of a string list, with the same observable value.
pub fn duplicate_strings(v: &Vec<String>) -> (r: Vec<String>)
    ensures
        r.deep_view() == v.deep_view(),
{
    let mut r: Vec<String> = Vec::new();
    let mut i: usize = 0;
    while i < v.len()
        invariant
            i <= v.len(),
            r@.len() == i,
            forall|j: int| 0 <= j < i ==> r@[j]@ == v@[j]@,
        decreases v.len() - i,
    {
        r.push(v[i].clone());
        i = i + 1;
    }
    proof {
        assert(r.deep_view() =~= v.deep_view());
    }
    r
}

/// A field-for-field copy of a label map, with the same observable value.
pub fn duplicate_label_pairs(v: &Vec<(String, String)>) -> (r: Vec<(String, String)>)
    ensures
        r.deep_view() == v.deep_view(),
{
    let mut r: Vec<(String, String)> = Vec::new();
    let mut i: usize = 0;
    while i < v.len()
        invariant
            i <= v.len(),
            r@.len() == i,
            forall|j: int| 0 <= j < i ==> r@[j].0@ == v@[j].0@ && r@[j].1@ == v@[j].1@,
        decreases v.len() - i,
    {
        r.push((v[i].0.clone(), v[i].1.clone()));
        i = i + 1;
    }
    proof {
        assert(r.deep_view() =~= v.deep_view());
    }
    r
}


/// A field-for-field copy of a byte string, with the same observable value.
pub fn duplicate_bytes(v: &Vec<u8>) -> (r: Vec<u8>)
    ensures
        r@ == v@,
{
    let mut r: Vec<u8> = Vec::new();
    let mut i: usize = 0;
    while i < v.len()
        invariant
            i <= v.len(),
            r@ == v@.subrange(0, i as int),
        decreases v.len() - i,
    {
        r.push(v[i]);
        proof {
            assert(r@ =~= v@.subrange(0, i + 1));
        }
        i = i + 1;
    }
    proof {
        assert(v@.subrange(0, i as int) =~= v@);
    }
    r
}

/// A field-for-field copy of a boundary node, with the same observable value.
pub fn duplicate_boundary_node(b: &BoundaryNode) -> (r: BoundaryNode)
    ensures
        r@ == b@,
{
    let r = BoundaryNode {
        name: b.name.clone(),
        targets: duplicate_strings(&b.targets),
        custom_labels: duplicate_label_pairs(&b.custom_labels),
        job_type: b.job_type.clone(),
    };
    proof {
        assert(r@ =~= b@);
    }
    r
}

/// A field-for-field copy of a definition, with the same observable value.
pub fn duplicate_definition(d: &Definition) -> (r: Definition)
    ensures
        r@ == d@,
{
    let public_key = match &d.public_key {
        Some(k) => Some(duplicate_bytes(k)),
        None => None,
    };
    let mut boundary_nodes: Vec<BoundaryNode> = Vec::new();
    let mut i: usize = 0;
    while i < d.boundary_nodes.len()
        invariant
            i <= d.boundary_nodes.len(),
            boundary_nodes@.len() == i,
            forall|j: int| 0 <= j < i ==> (#[trigger] boundary_nodes@[j])@ == d.boundary_nodes@[j]@,
        decreases d.boundary_nodes.len() - i,
    {
        let b = duplicate_boundary_node(&d.boundary_nodes[i]);
        boundary_nodes.push(b);
        i = i + 1;
    }
    let r = Definition {
        name: d.name.clone(),
        nns_urls: duplicate_strings(&d.nns_urls),
        registry_path: d.registry_path.clone(),
        public_key,
        poll_interval: d.poll_interval,
        registry_query_timeout: d.registry_query_timeout,
        boundary_nodes,
    };
    proof {
        assert(r@.boundary_nodes =~= d@.boundary_nodes);
        assert(r@.public_key == d@.public_key);
        assert(r@ =~= d@);
    }
    r
}

} // verus!
