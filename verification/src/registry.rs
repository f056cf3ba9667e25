//! The registry of extractors and the dispatcher: which extractors are
//! tried for a request, in which order, and what comes of it.

use vstd::prelude::*;
use crate::error::{ErrorView, KreuzbergError};
use crate::mime::{normalize_mime_type, normalized};
use crate::plugins::{hook_view, Answer, DocumentExtractor};
use crate::text::str_eq;
use crate::types::{ExtractionConfig, ExtractionResult, ExtractionResultView};

verus! {

/// A request for one extraction.
#[derive(Debug)]
pub struct ExtractionRequest {
    pub content: Vec<u8>,
    pub mime_type: String,
    pub config: ExtractionConfig,
}

/// What a registry keeps of an extractor: what it said of itself when it
/// was registered.
#[derive(Debug)]
pub struct ExtractorDescriptor {
    pub name: String,
    pub version: String,
    pub supported_mime_types: Vec<String>,
    pub priority: i32,
}

/// The mathematical form of a descriptor.
pub struct DescriptorView {
    pub name: Seq<char>,
    pub version: Seq<char>,
    pub supported_mime_types: Seq<Seq<char>>,
    pub priority: int,
}

impl View for ExtractorDescriptor {
    type V = DescriptorView;

    open spec fn view(&self) -> DescriptorView {
        DescriptorView {
            name: self.name@,
            version: self.version@,
            supported_mime_types: self.supported_mime_types.deep_view(),
            priority: self.priority as int,
        }
    }
}

/// The mathematical form of a list of descriptors.
pub open spec fn descriptors_view(ds: Seq<ExtractorDescriptor>) -> Seq<DescriptorView> {
    Seq::new(ds.len(), |i: int| ds[i]@)
}

/// The failure of one extractor on a request.
#[derive(Debug)]
pub struct ExtractorFailure {
    /// The name of the extractor.
    pub extractor: String,
    pub error: KreuzbergError,
}

/// Why a request was not served.
#[derive(Debug)]
pub enum DispatchError {
    /// No registered extractor declares the MIME type, given in its normal form.
    NoExtractorAvailable(String),
    /// Every candidate failed: the failures in the order in which the
    /// candidates were tried.
    AllExtractorsFailed(Vec<ExtractorFailure>),
}

/// Why an extractor was not registered.
#[derive(Debug)]
pub enum RegistryError {
    /// An extractor of that name is registered already.
    DuplicateExtractor(String),
    /// The set-up hook of the extractor failed.
    InitializationFailed(KreuzbergError),
}

/// Whether an extractor declares a MIME type: the type is one of those it
/// lists, character for character.
pub open spec fn supports(d: DescriptorView, mime: Seq<char>) -> bool {
    d.supported_mime_types.contains(mime)
}

/// Whether the extractor at `i` is tried before the one at `j`: it has the
/// higher priority, or the same and was registered earlier.
pub open spec fn precedes(ds: Seq<DescriptorView>, i: int, j: int) -> bool {
    ds[i].priority > ds[j].priority || (ds[i].priority == ds[j].priority && i < j)
}

/// Whether the index `i` is listed in `c`.
pub open spec fn listed(c: Seq<usize>, i: int) -> bool {
    exists|k: int| 0 <= k < c.len() && #[trigger] c[k] == i
}

/// Whether `c` lists the candidates for a MIME type in the order in which
/// they are tried: exactly the extractors that declare the type, each
/// before those that it precedes.
pub open spec fn is_candidate_order(ds: Seq<DescriptorView>, mime: Seq<char>, c: Seq<usize>) -> bool {
    &&& forall|k: int| 0 <= k < c.len() ==> (#[trigger] c[k]) < ds.len() && supports(ds[c[k] as int], mime)
    &&& forall|i: int| 0 <= i < ds.len() && supports(#[trigger] ds[i], mime) ==> listed(c, i)
    &&& forall|k: int, l: int|
        0 <= k < l < c.len() ==> precedes(ds, #[trigger] c[k] as int, #[trigger] c[l] as int)
}

/// The first candidate is the extractor of the highest priority among those
/// that declare the MIME type, and among those of that priority the one
/// that was registered first.
pub proof fn lemma_first_candidate_is_best(
    ds: Seq<DescriptorView>,
    mime: Seq<char>,
    c: Seq<usize>,
    i: int,
)
    requires
        is_candidate_order(ds, mime, c),
        0 <= i < ds.len(),
        supports(ds[i], mime),
    ensures
        c.len() > 0,
        supports(ds[c[0] as int], mime),
        ds[c[0] as int].priority >= ds[i].priority,
        ds[c[0] as int].priority == ds[i].priority ==> c[0] <= i,
{
    assert(listed(c, i));
    let k = choose|k: int| 0 <= k < c.len() && #[trigger] c[k] == i;
    if k > 0 {
        assert(precedes(ds, c[0] as int, c[k] as int));
    }
}

/// There are candidates exactly when some extractor declares the MIME type.
pub proof fn lemma_candidates_exist(ds: Seq<DescriptorView>, mime: Seq<char>, c: Seq<usize>)
    requires
        is_candidate_order(ds, mime, c),
    ensures
        c.len() > 0 <==> exists|i: int| 0 <= i < ds.len() && supports(#[trigger] ds[i], mime),
{
    if c.len() > 0 {
        assert(supports(ds[c[0] as int], mime));
    }
    if exists|i: int| 0 <= i < ds.len() && supports(#[trigger] ds[i], mime) {
        let i = choose|i: int| 0 <= i < ds.len() && supports(#[trigger] ds[i], mime);
        assert(listed(c, i));
    }
}

/// Two lists of the candidates for one MIME type agree on their first `k`
/// places.
pub proof fn lemma_same_prefix(
    ds: Seq<DescriptorView>,
    mime: Seq<char>,
    c: Seq<usize>,
    d: Seq<usize>,
    k: int,
)
    requires
        is_candidate_order(ds, mime, c),
        is_candidate_order(ds, mime, d),
        0 <= k <= c.len(),
    ensures
        k <= d.len(),
        forall|j: int| 0 <= j < k ==> c[j] == d[j],
    decreases k,
{
    if k > 0 {
        lemma_same_prefix(ds, mime, c, d, k - 1);
        let a = c[k - 1];
        assert(supports(ds[a as int], mime));
        assert(listed(d, a as int));
        let m = choose|m: int| 0 <= m < d.len() && #[trigger] d[m] == a as int;
        if m < k - 1 {
            assert(c[m] == d[m]);
            assert(precedes(ds, c[m] as int, c[k - 1] as int));
        }
        let b = d[k - 1];
        assert(supports(ds[b as int], mime));
        assert(listed(c, b as int));
        let n = choose|n: int| 0 <= n < c.len() && #[trigger] c[n] == b as int;
        if n < k - 1 {
            assert(c[n] == d[n]);
            assert(precedes(ds, d[n] as int, d[k - 1] as int));
        }
        if m > k - 1 {
            assert(precedes(ds, d[k - 1] as int, d[m] as int));
            if n > k - 1 {
                assert(precedes(ds, c[k - 1] as int, c[n] as int));
            }
        }
    }
}

/// The order of the candidates is the only one: two lists of the
/// candidates for one MIME type are the same list.
pub proof fn lemma_candidate_order_is_unique(
    ds: Seq<DescriptorView>,
    mime: Seq<char>,
    c: Seq<usize>,
    d: Seq<usize>,
)
    requires
        is_candidate_order(ds, mime, c),
        is_candidate_order(ds, mime, d),
    ensures
        c == d,
{
    lemma_same_prefix(ds, mime, c, d, c.len() as int);
    lemma_same_prefix(ds, mime, d, c, d.len() as int);
    assert(c =~= d);
}

/// The errors of a list of failures.
pub open spec fn failure_errors(fs: Seq<ExtractorFailure>) -> Seq<ErrorView> {
    Seq::new(fs.len(), |j: int| fs[j].error@)
}

/// Whether the first `k` candidates failed with the given errors.
pub open spec fn candidates_failed<E: DocumentExtractor>(
    es: Seq<E>,
    c: Seq<usize>,
    content: Seq<u8>,
    mime: Seq<char>,
    config: Seq<(Seq<char>, Seq<char>)>,
    errors: Seq<ErrorView>,
    k: int,
) -> bool {
    &&& 0 <= k <= c.len()
    &&& errors.len() == k
    &&& forall|j: int|
        0 <= j < k ==> es[c[j] as int].extracts(
            content,
            mime,
            config,
            Err::<ExtractionResultView, ErrorView>(#[trigger] errors[j]),
        )
}

/// A result under a given MIME type.
pub open spec fn with_mime_type(r: ExtractionResultView, mime: Seq<char>) -> ExtractionResultView {
    ExtractionResultView { mime_type: mime, ..r }
}

/// Whether `r` is an outcome of trying the candidates `c` in order, each on
/// the content, the MIME type and the configuration of the request: the
/// result of the first candidate that succeeds, after the failure of all
/// before it, under the MIME type of the request; or no candidate at all;
/// or the failures of all of them, each under the name of its extractor.
pub open spec fn dispatched<E: DocumentExtractor>(
    ds: Seq<DescriptorView>,
    es: Seq<E>,
    c: Seq<usize>,
    content: Seq<u8>,
    mime: Seq<char>,
    config: Seq<(Seq<char>, Seq<char>)>,
    r: Result<ExtractionResult, DispatchError>,
) -> bool {
    match r {
        Ok(res) => exists|k: int, errors: Seq<ErrorView>, found: ExtractionResultView|
            0 <= k < c.len() && #[trigger] candidates_failed(es, c, content, mime, config, errors, k)
                && #[trigger] es[c[k] as int].extracts(
                content,
                mime,
                config,
                Ok::<ExtractionResultView, ErrorView>(found),
            ) && res@ == with_mime_type(found, mime),
        Err(DispatchError::NoExtractorAvailable(m)) => c.len() == 0 && m@ == mime,
        Err(DispatchError::AllExtractorsFailed(fs)) => {
            &&& c.len() > 0
            &&& candidates_failed(es, c, content, mime, config, failure_errors(fs@), c.len() as int)
            &&& forall|j: int|
                0 <= j < c.len() ==> (#[trigger] fs@[j]).extractor@ == ds[c[j] as int].name
        },
    }
}

/// Whether a descriptor holds what an extractor says of itself: its name,
/// its version, the MIME types it declares and its priority.
pub open spec fn described<E: DocumentExtractor>(extractor: E, d: DescriptorView) -> bool {
    &&& extractor.answers(Answer::Name(d.name))
    &&& extractor.answers(Answer::Version(d.version))
    &&& extractor.answers(Answer::MimeTypes(d.supported_mime_types))
    &&& extractor.answers(Answer::Priority(d.priority))
}

/// No two extractors have the same name.
pub open spec fn distinct_names(ds: Seq<DescriptorView>) -> bool {
    forall|i: int, j: int| 0 <= i < j < ds.len() ==> (#[trigger] ds[i]).name != (#[trigger] ds[j]).name
}

/// Whether an extractor of a given name is among the extractors.
pub open spec fn has_name(ds: Seq<DescriptorView>, name: Seq<char>) -> bool {
    exists|i: int| 0 <= i < ds.len() && (#[trigger] ds[i]).name == name
}

/// The extractors that are registered, in the order of their registration,
/// each with its descriptor.
pub struct ExtractorRegistry<E: DocumentExtractor> {
    descriptors: Vec<ExtractorDescriptor>,
    extractors: Vec<E>,
}

fn position_of(ds: &Vec<ExtractorDescriptor>, name: &str) -> (r: Option<usize>)
    ensures
        match r {
            Some(i) => i < ds@.len() && descriptors_view(ds@)[i as int].name == name@,
            None => !has_name(descriptors_view(ds@), name@),
        },
{
    let mut i: usize = 0;
    while i < ds.len()
        invariant
            i <= ds.len(),
            forall|k: int| 0 <= k < i ==> (#[trigger] descriptors_view(ds@)[k]).name != name@,
        decreases ds.len() - i,
    {
        if str_eq(ds[i].name.as_str(), name) {
            return Some(i);
        }
        i += 1;
    }
    None
}

fn declares(d: &ExtractorDescriptor, mime: &str) -> (b: bool)
    ensures
        b == supports(d@, mime@),
{
    let mut i: usize = 0;
    while i < d.supported_mime_types.len()
        invariant
            i <= d.supported_mime_types.len(),
            forall|k: int| 0 <= k < i ==> (#[trigger] d@.supported_mime_types[k]) != mime@,
        decreases d.supported_mime_types.len() - i,
    {
        assert(d@.supported_mime_types[i as int] == d.supported_mime_types@[i as int]@);
        if str_eq(d.supported_mime_types[i].as_str(), mime) {
            return true;
        }
        i += 1;
    }
    false
}

/// Lists the candidates for a MIME type among the extractors, in the order
/// in which they are tried.
pub fn select_candidates(ds: &Vec<ExtractorDescriptor>, mime: &str) -> (c: Vec<usize>)
    ensures
        is_candidate_order(descriptors_view(ds@), mime@, c@),
{
    let ghost dv = descriptors_view(ds@);
    let mut c: Vec<usize> = Vec::new();
    let mut i: usize = 0;
    while i < ds.len()
        invariant
            i <= ds.len(),
            dv == descriptors_view(ds@),
            forall|k: int| 0 <= k < c@.len() ==> (#[trigger] c@[k]) < i && supports(dv[c@[k] as int], mime@),
            forall|j: int| 0 <= j < i && supports(#[trigger] dv[j], mime@) ==> listed(c@, j),
            forall|k: int, l: int|
                0 <= k < l < c@.len() ==> precedes(dv, #[trigger] c@[k] as int, #[trigger] c@[l] as int),
        decreases ds.len() - i,
    {
        assert(dv[i as int] == ds@[i as int]@);
        if declares(&ds[i], mime) {
            let p = ds[i].priority;
            let mut at: usize = 0;
            while at < c.len() && ds[c[at]].priority >= p
                invariant
                    at <= c@.len(),
                    i < ds.len(),
                    dv == descriptors_view(ds@),
                    p == dv[i as int].priority,
                    forall|k: int| 0 <= k < c@.len() ==> (#[trigger] c@[k]) < i,
                    forall|k: int| 0 <= k < at ==> dv[(#[trigger] c@[k]) as int].priority >= p,
                decreases c@.len() - at,
            {
                assert(dv[c@[at as int] as int] == ds@[c@[at as int] as int]@);
                at += 1;
            }
            proof {
                if at < c@.len() {
                    assert(dv[c@[at as int] as int] == ds@[c@[at as int] as int]@);
                }
            }
            let ghost old_c = c@;
            c.insert(at, i);
            proof {
                assert forall|k: int, l: int| 0 <= k < l < c@.len() implies precedes(
                    dv,
                    #[trigger] c@[k] as int,
                    #[trigger] c@[l] as int,
                ) by {
                    if l < at {
                        assert(c@[k] == old_c[k] && c@[l] == old_c[l]);
                    } else if l == at {
                        assert(c@[k] == old_c[k]);
                    } else if k < at {
                        assert(c@[k] == old_c[k] && c@[l] == old_c[l - 1]);
                    } else if k == at {
                        assert(c@[l] == old_c[l - 1]);
                        if l - 1 > at {
                            assert(precedes(dv, old_c[at as int] as int, old_c[l - 1] as int));
                        }
                    } else {
                        assert(c@[k] == old_c[k - 1] && c@[l] == old_c[l - 1]);
                    }
                }
                assert forall|j: int| 0 <= j < i + 1 && supports(#[trigger] dv[j], mime@) implies listed(
                    c@,
                    j,
                ) by {
                    if j == i {
                        assert(c@[at as int] == i);
                    } else {
                        assert(listed(old_c, j));
                        let k = choose|k: int| 0 <= k < old_c.len() && #[trigger] old_c[k] == j;
                        if k < at {
                            assert(c@[k] == j);
                        } else {
                            assert(c@[k + 1] == j);
                        }
                    }
                }
                assert forall|k: int| 0 <= k < c@.len() implies (#[trigger] c@[k]) < i + 1 && supports(
                    dv[c@[k] as int],
                    mime@,
                ) by {
                    if k < at {
                        assert(c@[k] == old_c[k]);
                    } else if k > at {
                        assert(c@[k] == old_c[k - 1]);
                    }
                }
            }
        }
        i += 1;
    }
    c
}

/// What a registration comes to: a name that is taken is a duplicate;
/// else the set-up hook decides.
pub fn registration_outcome(name: &str, taken: bool, set_up: Result<(), KreuzbergError>) -> (r:
    Result<(), RegistryError>)
    ensures
        match r {
            Ok(()) => !taken && set_up is Ok,
            Err(RegistryError::DuplicateExtractor(n)) => taken && n@ == name@,
            Err(RegistryError::InitializationFailed(e)) => !taken && set_up == Err::<
                (),
                KreuzbergError,
            >(e),
        },
{
    if taken {
        Err(RegistryError::DuplicateExtractor(String::from_str(name)))
    } else {
        match set_up {
            Ok(()) => Ok(()),
            Err(e) => Err(RegistryError::InitializationFailed(e)),
        }
    }
}

fn describe<E: DocumentExtractor>(extractor: &E) -> (d: ExtractorDescriptor)
    ensures
        described(*extractor, d@),
{
    let types = extractor.supported_mime_types();
    let mut owned: Vec<String> = Vec::new();
    let mut i: usize = 0;
    while i < types.len()
        invariant
            i <= types.len(),
            owned@.len() == i,
            forall|k: int| 0 <= k < i ==> (#[trigger] owned@[k])@ == types@[k]@,
        decreases types.len() - i,
    {
        owned.push(String::from_str(types[i]));
        i += 1;
    }
    assert(owned.deep_view() =~~= types.deep_view());
    ExtractorDescriptor {
        name: String::from_str(extractor.name()),
        version: extractor.version(),
        supported_mime_types: owned,
        priority: extractor.priority(),
    }
}

/// Tries the candidates in order on a request.
pub fn try_candidates<E: DocumentExtractor>(
    ds: &Vec<ExtractorDescriptor>,
    es: &Vec<E>,
    c: &Vec<usize>,
    content: &[u8],
    mime: &str,
    config: &ExtractionConfig,
) -> (r: Result<ExtractionResult, DispatchError>)
    requires
        ds@.len() == es@.len(),
        forall|k: int| 0 <= k < c@.len() ==> (#[trigger] c@[k]) < es@.len(),
    ensures
        dispatched(descriptors_view(ds@), es@, c@, content@, mime@, config@, r),
{
    if c.len() == 0 {
        return Err(DispatchError::NoExtractorAvailable(String::from_str(mime)));
    }
    let mut failures: Vec<ExtractorFailure> = Vec::new();
    let mut k: usize = 0;
    while k < c.len()
        invariant
            k <= c@.len(),
            c@.len() > 0,
            failures@.len() == k,
            ds@.len() == es@.len(),
            forall|j: int| 0 <= j < c@.len() ==> (#[trigger] c@[j]) < es@.len(),
            candidates_failed(es@, c@, content@, mime@, config@, failure_errors(failures@), k as int),
            forall|j: int|
                0 <= j < k ==> (#[trigger] failures@[j]).extractor@ == descriptors_view(
                    ds@,
                )[c@[j] as int].name,
        decreases c@.len() - k,
    {
        let at = c[k];
        match es[at].extract_bytes(content, mime, config) {
            Ok(found) => {
                let ghost raw = found@;
                let res = ExtractionResult { mime_type: String::from_str(mime), ..found };
                assert(res@ == with_mime_type(raw, mime@));
                assert(candidates_failed(
                    es@,
                    c@,
                    content@,
                    mime@,
                    config@,
                    failure_errors(failures@),
                    k as int,
                ));
                assert(es@[c@[k as int] as int].extracts(
                    content@,
                    mime@,
                    config@,
                    Ok::<ExtractionResultView, ErrorView>(raw),
                ));
                return Ok(res);
            },
            Err(error) => {
                let ghost held = failure_errors(failures@);
                let ghost before = failures@;
                failures.push(ExtractorFailure { extractor: ds[at].name.clone(), error });
                proof {
                    assert(failure_errors(failures@) =~= held.push(error@));
                    assert forall|j: int| 0 <= j < k + 1 implies es@[c@[j] as int].extracts(
                        content@,
                        mime@,
                        config@,
                        Err::<ExtractionResultView, ErrorView>(
                            #[trigger] failure_errors(failures@)[j],
                        ),
                    ) by {
                        if j < k {
                            assert(failure_errors(failures@)[j] == held[j]);
                        }
                    }
                    assert forall|j: int| 0 <= j < k + 1 implies (#[trigger] failures@[j]).extractor@
                        == descriptors_view(ds@)[c@[j] as int].name by {
                        if j < k {
                            assert(failures@[j] == before[j]);
                        }
                    }
                }
            },
        }
        k += 1;
    }
    Err(DispatchError::AllExtractorsFailed(failures))
}

impl<E: DocumentExtractor> ExtractorRegistry<E> {
    #[verifier::type_invariant]
    spec fn well_formed(&self) -> bool {
        &&& self.descriptors@.len() == self.extractors@.len()
        &&& distinct_names(descriptors_view(self.descriptors@))
    }

    /// The descriptors of the registered extractors, in the order of their
    /// registration.
    pub closed spec fn descriptors(&self) -> Seq<DescriptorView> {
        descriptors_view(self.descriptors@)
    }

    /// The registered extractors, in the order of their registration.
    pub closed spec fn entries(&self) -> Seq<E> {
        self.extractors@
    }

    /// A registry without extractors.
    pub fn new() -> (r: Self)
        ensures
            r.descriptors().len() == 0,
            r.entries().len() == 0,
    {
        ExtractorRegistry { descriptors: Vec::new(), extractors: Vec::new() }
    }

    /// The number of registered extractors. Each has a descriptor, and no
    /// two have the same name.
    pub fn len(&self) -> (n: usize)
        ensures
            n == self.descriptors().len(),
            n == self.entries().len(),
            distinct_names(self.descriptors()),
    {
        proof {
            use_type_invariant(self);
        }
        self.descriptors.len()
    }

    /// Whether an extractor of the given name is registered.
    pub fn contains(&self, name: &str) -> (b: bool)
        ensures
            b == has_name(self.descriptors(), name@),
    {
        position_of(&self.descriptors, name).is_some()
    }

    /// The descriptor of the extractor at an index.
    pub fn descriptor(&self, index: usize) -> (r: Option<&ExtractorDescriptor>)
        ensures
            index < self.descriptors().len() ==> r is Some && r->0@ == self.descriptors()[
                index as int
            ],
            index >= self.descriptors().len() ==> r is None,
    {
        if index < self.descriptors.len() {
            Some(&self.descriptors[index])
        } else {
            None
        }
    }

    /// Registers an extractor under the descriptor it gives of itself. A
    /// name that is registered already is refused. Else the set-up hook of
    /// the extractor is called once: where it fails the extractor is not
    /// added, where it succeeds the extractor is added behind those
    /// registered before.
    pub fn register(&mut self, extractor: E) -> (r: Result<(), RegistryError>)
        ensures
            match r {
                Ok(()) => {
                    &&& final(self).entries() == old(self).entries().push(extractor)
                    &&& final(self).descriptors().len() == old(self).descriptors().len() + 1
                    &&& final(self).descriptors().drop_last() == old(self).descriptors()
                    &&& !has_name(old(self).descriptors(), final(self).descriptors().last().name)
                    &&& described(extractor, final(self).descriptors().last())
                    &&& extractor.answers(Answer::SetUp(Ok(())))
                },
                Err(RegistryError::DuplicateExtractor(n)) => {
                    &&& has_name(old(self).descriptors(), n@)
                    &&& extractor.answers(Answer::Name(n@))
                    &&& final(self).entries() == old(self).entries()
                    &&& final(self).descriptors() == old(self).descriptors()
                },
                Err(RegistryError::InitializationFailed(e)) => {
                    &&& extractor.answers(Answer::SetUp(Err(e@)))
                    &&& final(self).entries() == old(self).entries()
                    &&& final(self).descriptors() == old(self).descriptors()
                },
            },
    {
        proof {
            use_type_invariant(&*self);
        }
        let d = describe(&extractor);
        let taken = position_of(&self.descriptors, d.name.as_str()).is_some();
        let set_up = if taken {
            Ok(())
        } else {
            extractor.initialize()
        };
        let outcome = registration_outcome(d.name.as_str(), taken, set_up);
        if outcome.is_ok() {
            let mut taken: ExtractorRegistry<E> = ExtractorRegistry::new();
            std::mem::swap(self, &mut taken);
            let ExtractorRegistry { descriptors: mut ds, extractors: mut es } = taken;
            let ghost before = descriptors_view(ds@);
            ds.push(d);
            es.push(extractor);
            proof {
                let after = descriptors_view(ds@);
                assert(after.drop_last() =~= before);
                assert forall|i: int, j: int| 0 <= i < j < after.len() implies (#[trigger] after[i]).name
                    != (#[trigger] after[j]).name by {
                    if j < before.len() {
                        assert(after[i] == before[i] && after[j] == before[j]);
                    } else {
                        assert(after[i] == before[i]);
                    }
                }
            }
            *self = ExtractorRegistry { descriptors: ds, extractors: es };
        }
        outcome
    }

    /// Unregisters the extractor of the given name: its tear-down hook is
    /// called, then it is removed, and what the hook returned is handed
    /// back. A name that is not registered changes nothing.
    pub fn unregister(&mut self, name: &str) -> (r: Result<(), KreuzbergError>)
        ensures
            !has_name(old(self).descriptors(), name@) ==> r is Ok && final(self).entries() == old(self).entries()
                && final(self).descriptors() == old(self).descriptors(),
            has_name(old(self).descriptors(), name@) ==> !has_name(final(self).descriptors(), name@)
                && exists|i: int|
                0 <= i < old(self).descriptors().len() && (#[trigger] old(self).descriptors()[i]).name
                    == name@ && final(self).descriptors() == old(self).descriptors().remove(i)
                    && final(self).entries() == old(self).entries().remove(i) && old(self).entries()[i].answers(Answer::TornDown(hook_view(r))),
    {
        proof {
            use_type_invariant(&*self);
        }
        match position_of(&self.descriptors, name) {
            Some(i) => {
                let mut taken: ExtractorRegistry<E> = ExtractorRegistry::new();
                std::mem::swap(self, &mut taken);
                let ExtractorRegistry { descriptors: mut ds, extractors: mut es } = taken;
                let ghost before = descriptors_view(ds@);
                let result = es[i].shutdown();
                ds.remove(i);
                es.remove(i);
                proof {
                    let after = descriptors_view(ds@);
                    assert(after =~= before.remove(i as int));
                    assert forall|a: int, b: int| 0 <= a < b < after.len() implies (#[trigger] after[a]).name
                        != (#[trigger] after[b]).name by {
                        let a0 = if a < i {
                            a
                        } else {
                            a + 1
                        };
                        let b0 = if b < i {
                            b
                        } else {
                            b + 1
                        };
                        assert(after[a] == before[a0] && after[b] == before[b0]);
                    }
                    assert forall|k: int| 0 <= k < after.len() implies (#[trigger] after[k]).name
                        != name@ by {
                        let k0 = if k < i {
                            k
                        } else {
                            k + 1
                        };
                        assert(after[k] == before[k0]);
                        if k0 < i {
                            assert(before[k0].name != before[i as int].name);
                        } else {
                            assert(before[i as int].name != before[k0].name);
                        }
                    }
                }
                *self = ExtractorRegistry { descriptors: ds, extractors: es };
                result
            },
            None => Ok(()),
        }
    }

    /// Lists the candidates for a MIME type, given in its normal form, in
    /// the order in which they are tried.
    pub fn candidates(&self, mime: &str) -> (c: Vec<usize>)
        ensures
            is_candidate_order(self.descriptors(), mime@, c@),
    {
        select_candidates(&self.descriptors, mime)
    }

    /// Serves a request: the MIME type is brought into its normal form, the
    /// extractors that declare it are tried by falling priority, and the
    /// first result is returned.
    pub fn dispatch(&self, request: &ExtractionRequest) -> (r: Result<
        ExtractionResult,
        DispatchError,
    >)
        ensures
            exists|c: Seq<usize>|
                #[trigger] is_candidate_order(self.descriptors(), normalized(request.mime_type@), c)
                    && dispatched(
                    self.descriptors(),
                    self.entries(),
                    c,
                    request.content@,
                    normalized(request.mime_type@),
                    request.config@,
                    r,
                ),
            r is Ok ==> r->Ok_0@.mime_type == normalized(request.mime_type@),
    {
        proof {
            use_type_invariant(self);
        }
        let mime = normalize_mime_type(request.mime_type.clone());
        let c = select_candidates(&self.descriptors, mime.as_str());
        let r = try_candidates(
            &self.descriptors,
            &self.extractors,
            &c,
            request.content.as_slice(),
            mime.as_str(),
            &request.config,
        );
        assert(is_candidate_order(self.descriptors(), normalized(request.mime_type@), c@));
        r
    }
}

} // verus!
