//! A call for images: which references it takes, what becomes of each, and the answer.

use crate::contracts::ImagePayload;
use crate::evidence::{self, MAX_IMAGE_WIRE_BYTES};
use crate::failure::{self, Failure, FailureV};
use crate::images::{FetchedImage, FetchedImageV};
use crate::json::{self, Json, JsonV};
use crate::ledger::{self, StoredRef, StoredRefV};
use crate::marketplace;
use crate::service;
use crate::text;
use crate::widgets;
use vstd::prelude::*;

verus! {

/// The texts among values.
pub open spec fn texts_in(v: Seq<JsonV>) -> Seq<Seq<char>>
    decreases v.len(),
{
    if v.len() == 0 {
        Seq::empty()
    } else {
        match v.last() {
            JsonV::Text(s) => texts_in(v.drop_last()).push(s),
            _ => texts_in(v.drop_last()),
        }
    }
}

/// The references that a call asks for.
pub open spec fn asked_refs(args: JsonV) -> Result<Seq<Seq<char>>, FailureV> {
    match args.field("imageRefs"@) {
        JsonV::Array(v) => Ok(texts_in(v)),
        _ => Err(FailureV::Message("INVALID_ARGUMENT: imageRefs is required"@)),
    }
}

pub open spec fn texts_outcome(r: Result<Vec<String>, Failure>) -> Result<
    Seq<Seq<char>>,
    FailureV,
> {
    match r {
        Ok(v) => Ok(text::texts(v@)),
        Err(e) => Err(e@),
    }
}

/// The references that a call asks for.
pub fn image_refs(args: &Json) -> (r: Result<Vec<String>, Failure>)
    ensures
        texts_outcome(r) == asked_refs(args@),
{
    let asked: &Vec<Json> = match args.field("imageRefs").as_array() {
        Some(v) => v,
        None => {
            return Err(Failure::new("INVALID_ARGUMENT: imageRefs is required"));
        },
    };
    let ghost all = json::values(asked@);
    let mut out: Vec<String> = Vec::new();
    let mut i: usize = 0;
    assert(text::texts(out@) =~= Seq::empty());
    while i < asked.len()
        invariant
            i <= asked.len(),
            all == json::values(asked@),
            text::texts(out@) == texts_in(all.take(i as int)),
        decreases asked.len() - i,
    {
        assert(all.take(i + 1).drop_last() =~= all.take(i as int));
        assert(all.take(i + 1).last() == asked@[i as int]@);
        if let Some(s) = asked[i].as_str() {
            let one: String = s.to_owned();
            proof {
                text::lemma_texts_push(out@, one);
            }
            out.push(one);
        }
        i += 1;
    }
    assert(all.take(i as int) =~= all);
    Ok(out)
}

/// What a reference was found to be, or why it was not found.
pub open spec fn found_of(r: Result<StoredRef, Failure>) -> Result<StoredRefV, FailureV> {
    failure::outcome(r)
}

pub open spec fn lookups(v: Seq<Result<StoredRef, Failure>>) -> Seq<Result<StoredRefV, FailureV>> {
    Seq::new(v.len(), |i: int| found_of(v[i]))
}

/// The one research that the references belong to, where they agree.
pub open spec fn shared_research(
    named: Option<Seq<char>>,
    found: Seq<Result<StoredRefV, FailureV>>,
) -> Result<Option<Seq<char>>, FailureV>
    decreases found.len(),
{
    if found.len() == 0 {
        Ok(named)
    } else {
        match (shared_research(named, found.drop_last()), found.last()) {
            (Err(e), _) => Err(e),
            (Ok(known), Err(_)) => Ok(known),
            (Ok(known), Ok(stored)) => if known matches Some(id) && id != stored.research_id {
                Err(FailureV::Message("INVALID_REFERENCE: mixed-research image batch"@))
            } else {
                Ok(Some(stored.research_id))
            },
        }
    }
}

/// The research that a batch of images belongs to.
pub open spec fn batch_research(
    named: Option<Seq<char>>,
    found: Seq<Result<StoredRefV, FailureV>>,
) -> Result<Seq<char>, FailureV> {
    match shared_research(named, found) {
        Err(e) => Err(e),
        Ok(None) => Err(
            FailureV::Message("INVALID_REFERENCE: image references are unavailable"@),
        ),
        Ok(Some(id)) => Ok(id),
    }
}

proof fn lemma_shared_stop(
    named: Option<Seq<char>>,
    found: Seq<Result<StoredRefV, FailureV>>,
    n: int,
)
    requires
        0 <= n <= found.len(),
        shared_research(named, found.take(n)) is Err,
    ensures
        shared_research(named, found) == shared_research(named, found.take(n)),
    decreases found.len() - n,
{
    if n < found.len() {
        assert(found.take(n + 1).drop_last() =~= found.take(n));
        lemma_shared_stop(named, found, n + 1);
    } else {
        assert(found.take(n) =~= found);
    }
}

/// The research that a batch of images belongs to: the one that was named, or the one that
/// all references share.
pub fn bind_images(named: Option<&str>, found: &Vec<Result<StoredRef, Failure>>) -> (r: Result<
    String,
    Failure,
>)
    ensures
        failure::outcome(r) == batch_research(json::str_of(named), lookups(found@)),
{
    let ghost start = json::str_of(named);
    let ghost all = lookups(found@);
    let mut research: Option<String> = match named {
        Some(id) => Some(id.to_owned()),
        None => None,
    };
    let mut i: usize = 0;
    while i < found.len()
        invariant
            i <= found.len(),
            start == json::str_of(named),
            all == lookups(found@),
            shared_research(start, all.take(i as int)) == Ok::<Option<Seq<char>>, FailureV>(
                text::text_of(research),
            ),
        decreases found.len() - i,
    {
        assert(all.take(i + 1).drop_last() =~= all.take(i as int));
        assert(all.take(i + 1).last() == found_of(found@[i as int]));
        if let Ok(stored) = &found[i] {
            let other: bool = match &research {
                Some(id) => !text::same(id.as_str(), stored.research_id.as_str()),
                None => false,
            };
            if other {
                proof {
                    lemma_shared_stop(start, all, i + 1);
                }
                return Err(Failure::new("INVALID_REFERENCE: mixed-research image batch"));
            }
            research = Some(stored.research_id.clone());
        }
        i += 1;
    }
    assert(all.take(i as int) =~= all);
    match research {
        Some(id) => Ok(id),
        None => Err(Failure::new("INVALID_REFERENCE: image references are unavailable")),
    }
}

/// The references of a bound batch that were found all belong to its research.
pub proof fn bound_batches_share_a_research(
    named: Option<Seq<char>>,
    found: Seq<Result<StoredRefV, FailureV>>,
)
    ensures
        batch_research(named, found) matches Ok(id) ==> {
            &&& named matches Some(n) ==> n == id
            &&& forall|i: int|
                0 <= i < found.len() ==> (#[trigger] found[i] matches Ok(stored)
                    ==> stored.research_id == id)
        },
    decreases found.len(),
{
    if let Ok(id) = batch_research(named, found) {
        if found.len() > 0 {
            let rest = found.drop_last();
            if shared_research(named, rest) matches Ok(Some(_)) {
                bound_batches_share_a_research(named, rest);
            } else {
                lemma_unbound(named, rest);
            }
            assert forall|i: int| 0 <= i < found.len() implies (#[trigger] found[i] matches Ok(
                stored,
            ) ==> stored.research_id == id) by {
                if i < found.len() - 1 {
                    assert(rest[i] == found[i]);
                }
            }
        }
    }
}

proof fn lemma_unbound(named: Option<Seq<char>>, found: Seq<Result<StoredRefV, FailureV>>)
    requires
        shared_research(named, found) == Ok::<Option<Seq<char>>, FailureV>(None),
    ensures
        named is None,
        forall|i: int| 0 <= i < found.len() ==> #[trigger] found[i] is Err,
    decreases found.len(),
{
    if found.len() > 0 {
        lemma_unbound(named, found.drop_last());
        assert forall|i: int| 0 <= i < found.len() implies #[trigger] found[i] is Err by {
            if i < found.len() - 1 {
                assert(found.drop_last()[i] == found[i]);
            }
        }
    }
}

/// The codes that one image of a batch can fail with.
pub open spec fn image_codes() -> Seq<Seq<char>> {
    seq![
        "INVALID_REFERENCE"@,
        "CONTEXT_CHANGED"@,
        "RESEARCH_EXPIRED"@,
        "SOURCE_BLOCKED"@,
        "SOURCE_CHANGED"@,
        "UPSTREAM_TIMEOUT"@,
        "SERVER_BUSY"@,
        "NOT_FOUND"@,
        "RESULT_TOO_LARGE"@,
    ]
}

pub open spec fn image_code(code: Seq<char>) -> Seq<char> {
    if image_codes().contains(code) {
        code
    } else {
        "SOURCE_CHANGED"@
    }
}

pub open spec fn worth_a_retry(code: Seq<char>) -> bool {
    code == "SOURCE_BLOCKED"@ || code == "UPSTREAM_TIMEOUT"@ || code == "SERVER_BUSY"@
}

/// The result of an image that could not be shown.
pub open spec fn image_error_of(reference: Seq<char>, code: Seq<char>, message: Seq<char>) -> JsonV {
    JsonV::object().with("imageRef"@, JsonV::Text(reference)).with(
        "status"@,
        JsonV::Text("error"@),
    ).with(
        "error"@,
        JsonV::object().with("code"@, JsonV::Text(image_code(code))).with(
            "message"@,
            JsonV::Text(message),
        ).with("retryable"@, JsonV::Bool(worth_a_retry(image_code(code)))),
    )
}

/// The row of an image that is not shown tells its reference and what is wrong.
pub proof fn image_errors_tell_what_is_wrong(
    reference: Seq<char>,
    code: Seq<char>,
    message: Seq<char>,
)
    ensures
        ({
            let shown = image_error_of(reference, code, message);
            &&& shown is Object
            &&& shown.field("imageRef"@) == (JsonV::Text(reference))
            &&& shown.field("status"@) == (JsonV::Text("error"@))
            &&& shown.field("error"@) == (JsonV::object().with("code"@, JsonV::Text(image_code(code))).with(
            "message"@,
            JsonV::Text(message),
        ).with("retryable"@, JsonV::Bool(worth_a_retry(image_code(code)))))
        }),
{
    broadcast use json::lemma_get_with;

    reveal_strlit("imageRef");
    reveal_strlit("status");
    reveal_strlit("error");
    assert("imageRef"@.len() == 8);
    assert("status"@.len() == 6);
    assert("error"@.len() == 5);
}

pub fn image_error(reference: &str, code: &str, message: &str) -> (r: Json)
    ensures
        r@ == image_error_of(reference@, code@, message@),
{
    let known: [&str; 9] = [
        "INVALID_REFERENCE",
        "CONTEXT_CHANGED",
        "RESEARCH_EXPIRED",
        "SOURCE_BLOCKED",
        "SOURCE_CHANGED",
        "UPSTREAM_TIMEOUT",
        "SERVER_BUSY",
        "NOT_FOUND",
        "RESULT_TOO_LARGE",
    ];
    assert(widgets::slices(known@) =~= image_codes());
    let shown: &str = if marketplace::is_among(code, &known) {
        code
    } else {
        "SOURCE_CHANGED"
    };
    let retryable: bool = text::same(shown, "SOURCE_BLOCKED") || text::same(
        shown,
        "UPSTREAM_TIMEOUT",
    ) || text::same(shown, "SERVER_BUSY");
    Json::object().with("imageRef", Json::text(reference)).with(
        "status",
        Json::text("error"),
    ).with(
        "error",
        Json::object().with("code", Json::text(shown)).with("message", Json::text(message)).with(
            "retryable",
            Json::Bool(retryable),
        ),
    )
}

/// What is done with a reference: its image is fetched, or it has its result already.
#[derive(Debug)]
pub enum ImagePlan {
    Fetch(String),
    Settled(Json),
}

pub enum ImagePlanV {
    Fetch(Seq<char>),
    Settled(JsonV),
}

impl View for ImagePlan {
    type V = ImagePlanV;

    open spec fn view(&self) -> ImagePlanV {
        match self {
            ImagePlan::Fetch(url) => ImagePlanV::Fetch(url@),
            ImagePlan::Settled(j) => ImagePlanV::Settled(j@),
        }
    }
}

/// What is done with a reference in a context. A stored reference without a URL fails the
/// whole batch.
pub open spec fn plan_of(
    reference: Seq<char>,
    found: Result<StoredRefV, FailureV>,
    context_id: Seq<char>,
) -> Result<ImagePlanV, FailureV> {
    match found {
        Err(e) => Ok(
            ImagePlanV::Settled(
                image_error_of(reference, evidence::code_of(e), evidence::shown_message(e.message())),
            ),
        ),
        Ok(stored) => if stored.value.get("bindingError"@) is Some {
            Ok(
                ImagePlanV::Settled(
                    image_error_of(
                        reference,
                        match stored.value.field("bindingCode"@) {
                            JsonV::Text(s) => s,
                            _ => "INVALID_REFERENCE"@,
                        },
                        match stored.value.field("bindingError"@) {
                            JsonV::Text(s) => s,
                            _ => "Reference unavailable."@,
                        },
                    ),
                ),
            )
        } else if stored.context_id != context_id {
            Ok(
                ImagePlanV::Settled(
                    image_error_of(
                        reference,
                        "CONTEXT_CHANGED"@,
                        "The image belongs to another context."@,
                    ),
                ),
            )
        } else {
            match service::required(stored.value, "url"@) {
                Ok(url) => Ok(ImagePlanV::Fetch(url)),
                Err(e) => Err(e),
            }
        },
    }
}

/// What is done with a reference in a context.
pub fn plan_image(reference: &str, found: &Result<StoredRef, Failure>, context_id: &str) -> (r:
    Result<ImagePlan, Failure>)
    ensures
        failure::outcome(r) == plan_of(reference@, found_of(*found), context_id@),
{
    let stored: &StoredRef = match found {
        Err(e) => {
            return Ok(
                ImagePlan::Settled(
                    image_error(
                        reference,
                        evidence::error_code(e),
                        evidence::safe_message(e).as_str(),
                    ),
                ),
            );
        },
        Ok(stored) => stored,
    };
    if stored.value.get("bindingError").is_some() {
        let code: &str = match stored.value.field("bindingCode").as_str() {
            Some(s) => s,
            None => "INVALID_REFERENCE",
        };
        let message: &str = match stored.value.field("bindingError").as_str() {
            Some(s) => s,
            None => "Reference unavailable.",
        };
        return Ok(ImagePlan::Settled(image_error(reference, code, message)));
    }
    if !text::same(stored.context_id.as_str(), context_id) {
        return Ok(
            ImagePlan::Settled(
                image_error(
                    reference,
                    "CONTEXT_CHANGED",
                    "The image belongs to another context.",
                ),
            ),
        );
    }
    match service::required_text(&stored.value, "url") {
        Ok(url) => Ok(ImagePlan::Fetch(url.to_owned())),
        Err(e) => Err(e),
    }
}

/// What has become of the images of a batch so far: their results, and for those that are
/// shown their bytes and their evidence.
#[derive(Debug)]
pub struct ImageBatch {
    pub results: Vec<Json>,
    pub blocks: Vec<ImagePayload>,
    pub evidence: Vec<Json>,
    pub wire_bytes: usize,
}

/// An image as it is sent: the kind and the text of its bytes.
pub open spec fn payload(p: ImagePayload) -> (Seq<char>, Seq<char>) {
    (p.mime@, p.data@)
}

pub open spec fn payloads(v: Seq<ImagePayload>) -> Seq<(Seq<char>, Seq<char>)> {
    Seq::new(v.len(), |i: int| payload(v[i]))
}

/// What an [`ImageBatch`] holds.
pub struct ImageBatchV {
    pub results: Seq<JsonV>,
    pub blocks: Seq<(Seq<char>, Seq<char>)>,
    pub evidence: Seq<JsonV>,
}

/// The size of the images on the wire.
pub open spec fn wire_size(blocks: Seq<(Seq<char>, Seq<char>)>) -> nat
    decreases blocks.len(),
{
    if blocks.len() == 0 {
        0
    } else {
        wire_size(blocks.drop_last()) + text::utf8_len(blocks.last().1)
    }
}

impl View for ImageBatch {
    type V = ImageBatchV;

    open spec fn view(&self) -> ImageBatchV {
        ImageBatchV {
            results: json::values(self.results@),
            blocks: payloads(self.blocks@),
            evidence: json::values(self.evidence@),
        }
    }
}

/// The evidence that an image was fetched.
pub open spec fn image_evidence(
    stored: StoredRefV,
    context_id: Seq<char>,
    image: FetchedImageV,
    name: Seq<char>,
) -> JsonV {
    marketplace::cited_as(
        evidence::observed_evidence_of(
            stored.value.field("sourceUrl"@).as_text(),
            context_id,
            stored.value.field("sku"@).as_text(),
            seq![
                match stored.value.field("fieldPath"@) {
                    JsonV::Text(s) => s,
                    _ => ""@,
                },
            ],
            JsonV::Array(
                seq![
                    marketplace::fact_of("/sha256"@, JsonV::Text(image.sha256)),
                    marketplace::fact_of("/mimeType"@, JsonV::Text(image.mime_type)),
                    marketplace::fact_of("/width"@, JsonV::unsigned(image.width as u64)),
                    marketplace::fact_of("/height"@, JsonV::unsigned(image.height as u64)),
                    marketplace::fact_of("/retrievedAt"@, JsonV::Text(image.retrieved_at)),
                    marketplace::fact_of("/sourceKind"@, stored.value.field("sourceKind"@)),
                    marketplace::fact_of("/sourceRef"@, stored.value.field("sourceRef"@)),
                ],
            ),
            image.retrieved_at,
        ),
        name,
    )
}

/// The result of an image that is shown, as the `index`th of the batch.
pub open spec fn image_shown(
    reference: Seq<char>,
    stored: StoredRefV,
    image: FetchedImageV,
    name: Seq<char>,
    index: nat,
) -> JsonV {
    JsonV::object().with("imageRef"@, JsonV::Text(reference)).with(
        "status"@,
        JsonV::Text("ok"@),
    ).with("sourceKind"@, stored.value.field("sourceKind"@)).with(
        "sourceRef"@,
        stored.value.field("sourceRef"@),
    ).with("evidenceRefs"@, marketplace::only_text(name)).with(
        "mimeType"@,
        JsonV::Text(image.mime_type),
    ).with("width"@, JsonV::unsigned(image.width as u64)).with(
        "height"@,
        JsonV::unsigned(image.height as u64),
    ).with("sha256"@, JsonV::Text(image.sha256)).with(
        "retrievedAt"@,
        JsonV::Text(image.retrieved_at),
    ).with("contentIndex"@, JsonV::unsigned(index as u64))
}

/// The row of an image tells its reference and its source, its kind, width, height and digest, when
/// it was fetched, and where in the answer it stands.
pub proof fn shown_images_tell_of_their_image(
    reference: Seq<char>,
    stored: StoredRefV,
    image: FetchedImageV,
    name: Seq<char>,
    index: nat,
)
    ensures
        ({
            let shown = image_shown(reference, stored, image, name, index);
            &&& shown is Object
            &&& shown.field("imageRef"@) == (JsonV::Text(reference))
            &&& shown.field("status"@) == (JsonV::Text("ok"@))
            &&& shown.field("sourceKind"@) == (stored.value.field("sourceKind"@))
            &&& shown.field("sourceRef"@) == (stored.value.field("sourceRef"@))
            &&& shown.field("evidenceRefs"@) == (marketplace::only_text(name))
            &&& shown.field("mimeType"@) == (JsonV::Text(image.mime_type))
            &&& shown.field("width"@) == (JsonV::unsigned(image.width as u64))
            &&& shown.field("height"@) == (JsonV::unsigned(image.height as u64))
            &&& shown.field("sha256"@) == (JsonV::Text(image.sha256))
            &&& shown.field("retrievedAt"@) == (JsonV::Text(image.retrieved_at))
            &&& shown.field("contentIndex"@) == (JsonV::unsigned(index as u64))
        }),
{
    broadcast use json::lemma_get_with;

    reveal_strlit("imageRef");
    reveal_strlit("status");
    reveal_strlit("sourceKind");
    reveal_strlit("sourceRef");
    reveal_strlit("evidenceRefs");
    reveal_strlit("mimeType");
    reveal_strlit("width");
    reveal_strlit("height");
    reveal_strlit("sha256");
    reveal_strlit("retrievedAt");
    reveal_strlit("contentIndex");
    assert("imageRef"@.len() == 8);
    assert("status"@.len() == 6);
    assert("sourceKind"@.len() == 10);
    assert("sourceRef"@.len() == 9);
    assert("evidenceRefs"@.len() == 12);
    assert("mimeType"@.len() == 8);
    assert("width"@.len() == 5);
    assert("height"@.len() == 6);
    assert("sha256"@.len() == 6);
    assert("retrievedAt"@.len() == 11);
    assert("contentIndex"@.len() == 12);
    assert("imageRef"@[0] == 'i');
    assert("mimeType"@[0] == 'm');
    assert("status"@[0] == 's');
    assert("height"@[0] == 'h');
    assert("status"@[1] == 't');
    assert("sha256"@[1] == 'h');
    assert("sha256"@[0] == 's');
    assert("evidenceRefs"@[0] == 'e');
    assert("contentIndex"@[0] == 'c');
}

impl ImageBatchV {
    /// The images fit on the wire, and each of them has its evidence.
    pub open spec fn valid(self) -> bool {
        &&& wire_size(self.blocks) <= MAX_IMAGE_WIRE_BYTES
        &&& self.evidence.len() == self.blocks.len()
        &&& self.blocks.len() <= self.results.len()
    }

    pub open spec fn settled(self, result: JsonV) -> ImageBatchV {
        ImageBatchV { results: self.results.push(result), ..self }
    }

    /// The batch with one more image, which is shown while it fits.
    pub open spec fn with_image(
        self,
        reference: Seq<char>,
        stored: StoredRefV,
        context_id: Seq<char>,
        image: FetchedImageV,
        id: Seq<char>,
    ) -> ImageBatchV {
        if wire_size(self.blocks) + text::utf8_len(image.data) > MAX_IMAGE_WIRE_BYTES {
            self.settled(
                image_error_of(
                    reference,
                    "RESULT_TOO_LARGE"@,
                    "The image batch exceeds the 8 MiB wire limit."@,
                ),
            )
        } else {
            let name = marketplace::evidence_name(id);
            ImageBatchV {
                results: self.results.push(
                    image_shown(reference, stored, image, name, self.blocks.len() + 1),
                ),
                blocks: self.blocks.push((image.mime_type, image.data)),
                evidence: self.evidence.push(image_evidence(stored, context_id, image, name)),
            }
        }
    }
}

fn evidence_for(stored: &StoredRef, context_id: &str, image: &FetchedImage, name: &str) -> (r: Json)
    ensures
        r@ == image_evidence(stored@, context_id@, image@, name@),
{
    let path: &str = match stored.value.field("fieldPath").as_str() {
        Some(s) => s,
        None => "",
    };
    let paths: [&str; 1] = [path];
    assert(widgets::slices(paths@) =~= seq![path@]);
    let mut facts: Vec<Json> = Vec::new();
    facts.push(marketplace::fact("/sha256", Json::text(image.sha256.as_str())));
    facts.push(marketplace::fact("/mimeType", Json::text(image.mime_type.as_str())));
    facts.push(marketplace::fact("/width", Json::unsigned(image.width as u64)));
    facts.push(marketplace::fact("/height", Json::unsigned(image.height as u64)));
    facts.push(marketplace::fact("/retrievedAt", Json::text(image.retrieved_at.as_str())));
    facts.push(marketplace::fact("/sourceKind", stored.value.field("sourceKind").copy()));
    facts.push(marketplace::fact("/sourceRef", stored.value.field("sourceRef").copy()));
    assert(json::values(facts@) =~= seq![
        marketplace::fact_of("/sha256"@, JsonV::Text(image@.sha256)),
        marketplace::fact_of("/mimeType"@, JsonV::Text(image@.mime_type)),
        marketplace::fact_of("/width"@, JsonV::unsigned(image@.width as u64)),
        marketplace::fact_of("/height"@, JsonV::unsigned(image@.height as u64)),
        marketplace::fact_of("/retrievedAt"@, JsonV::Text(image@.retrieved_at)),
        marketplace::fact_of("/sourceKind"@, stored@.value.field("sourceKind"@)),
        marketplace::fact_of("/sourceRef"@, stored@.value.field("sourceRef"@)),
    ]);
    evidence::observed_evidence(
        stored.value.field("sourceUrl").as_str(),
        context_id,
        stored.value.field("sku").as_str(),
        &paths,
        Json::array(facts),
        image.retrieved_at.as_str(),
    ).with("evidenceRef", Json::text(name))
}

fn shown_image(
    reference: &str,
    stored: &StoredRef,
    image: &FetchedImage,
    name: &str,
    index: u64,
) -> (r: Json)
    ensures
        r@ == image_shown(reference@, stored@, image@, name@, index as nat),
{
    Json::object().with("imageRef", Json::text(reference)).with("status", Json::text("ok")).with(
        "sourceKind",
        stored.value.field("sourceKind").copy(),
    ).with("sourceRef", stored.value.field("sourceRef").copy()).with(
        "evidenceRefs",
        marketplace::only(name),
    ).with("mimeType", Json::text(image.mime_type.as_str())).with(
        "width",
        Json::unsigned(image.width as u64),
    ).with("height", Json::unsigned(image.height as u64)).with(
        "sha256",
        Json::text(image.sha256.as_str()),
    ).with("retrievedAt", Json::text(image.retrieved_at.as_str())).with(
        "contentIndex",
        Json::unsigned(index),
    )
}

impl ImageBatch {
    /// The images fit on the wire, and their size is known.
    pub open spec fn valid(self) -> bool {
        self@.valid() && self.wire_bytes == wire_size(self@.blocks)
    }

    pub fn new() -> (r: ImageBatch)
        ensures
            r.valid(),
            r@.results.len() == 0,
            r@.blocks.len() == 0,
            r@.evidence.len() == 0,
    {
        ImageBatch {
            results: Vec::new(),
            blocks: Vec::new(),
            evidence: Vec::new(),
            wire_bytes: 0,
        }
    }

    /// Whether an image is shown.
    pub fn shows_images(&self) -> (r: bool)
        ensures
            r == (self@.blocks.len() > 0),
    {
        self.blocks.len() > 0
    }

    /// Adds a result.
    pub fn settle(&mut self, result: Json)
        requires
            old(self).valid(),
        ensures
            final(self).valid(),
            final(self)@ == old(self)@.settled(result@),
    {
        proof {
            json::lemma_values_push(self.results@, result);
        }
        self.results.push(result);
    }

    /// Adds the result of an image that could not be fetched.
    pub fn add_failed(&mut self, reference: &str, e: &Failure)
        requires
            old(self).valid(),
        ensures
            final(self).valid(),
            final(self)@ == old(self)@.settled(
                image_error_of(
                    reference@,
                    evidence::code_of(e@),
                    evidence::shown_message(e@.message()),
                ),
            ),
    {
        let result: Json = image_error(
            reference,
            evidence::error_code(e),
            evidence::safe_message(e).as_str(),
        );
        self.settle(result);
    }

    /// Adds the result of an image that was not fetched in time.
    pub fn add_late(&mut self, reference: &str)
        requires
            old(self).valid(),
        ensures
            final(self).valid(),
            final(self)@ == old(self)@.settled(
                image_error_of(
                    reference@,
                    "UPSTREAM_TIMEOUT"@,
                    "Image retrieval exceeded the request deadline."@,
                ),
            ),
    {
        self.settle(
            image_error(
                reference,
                "UPSTREAM_TIMEOUT",
                "Image retrieval exceeded the request deadline.",
            ),
        );
    }

    /// Adds an image that was fetched, its evidence under a given identifier.
    pub fn add_image_as(
        &mut self,
        reference: &str,
        stored: &StoredRef,
        context_id: &str,
        image: FetchedImage,
        id: &str,
    )
        requires
            old(self).valid(),
        ensures
            final(self).valid(),
            final(self)@ == old(self)@.with_image(
                reference@,
                stored@,
                context_id@,
                image@,
                id@,
            ),
    {
        let size: usize = text::utf8_length(image.data.as_str());
        if size > MAX_IMAGE_WIRE_BYTES - self.wire_bytes {
            self.settle(
                image_error(
                    reference,
                    "RESULT_TOO_LARGE",
                    "The image batch exceeds the 8 MiB wire limit.",
                ),
            );
            return;
        }
        let name: String = text::joined("evidence_", id);
        let evidence: Json = evidence_for(stored, context_id, &image, name.as_str());
        let block = ImagePayload { mime: image.mime_type.clone(), data: image.data.clone() };
        let ghost before = self.blocks@;
        self.blocks.push(block);
        let result: Json = shown_image(
            reference,
            stored,
            &image,
            name.as_str(),
            self.blocks.len() as u64,
        );
        proof {
            json::lemma_values_push(self.evidence@, evidence);
            json::lemma_values_push(self.results@, result);
            assert(payloads(before.push(block)) =~= payloads(before).push(payload(block)));
            assert(payloads(before).push(payload(block)).drop_last() =~= payloads(before));
        }
        self.wire_bytes = self.wire_bytes + size;
        self.evidence.push(evidence);
        self.results.push(result);
    }

    /// Adds an image that was fetched.
    pub fn add_image(
        &mut self,
        reference: &str,
        stored: &StoredRef,
        context_id: &str,
        image: FetchedImage,
    )
        requires
            old(self).valid(),
        ensures
            final(self).valid(),
            exists|id: Seq<char>|
                final(self)@ == #[trigger] old(self)@.with_image(
                    reference@,
                    stored@,
                    context_id@,
                    image@,
                    id,
                ),
    {
        let id: String = ledger::fresh_id();
        self.add_image_as(reference, stored, context_id, image, id.as_str());
    }
}

/// The results of a batch, as they are recorded.
pub open spec fn batch_data(results: Seq<JsonV>) -> JsonV {
    JsonV::object().with("results"@, JsonV::Array(results))
}

/// The answer to a call for images: the value, the images, and the evidence to record.
#[derive(Debug)]
pub struct ImageAnswer {
    pub value: Json,
    pub images: Vec<ImagePayload>,
    pub evidence: Vec<Json>,
}

/// The answer to a call for images.
pub fn finish_images_at(batch: ImageBatch, research_id: &str, context: &Json, now: &str) -> (r:
    ImageAnswer)
    ensures
        r.value@ == evidence::envelope_of(
            Some(research_id@),
            batch_data(batch@.results),
            context@,
            batch@.evidence,
            Seq::empty(),
            now@,
        ),
        r.images@ == batch.blocks@,
        json::values(r.evidence@) == batch@.evidence,
{
    let data: Json = Json::object().with("results", Json::array(batch.results));
    let mut kept: Vec<Json> = Vec::new();
    let mut i: usize = 0;
    while i < batch.evidence.len()
        invariant
            i <= batch.evidence.len(),
            json::values(kept@) =~= json::values(batch.evidence@).take(i as int),
        decreases batch.evidence.len() - i,
    {
        let one: Json = batch.evidence[i].copy();
        proof {
            json::lemma_values_push(kept@, one);
        }
        kept.push(one);
        i += 1;
    }
    assert(json::values(kept@) =~= json::values(batch.evidence@));
    let none: Vec<Json> = Vec::new();
    assert(json::values(none@) =~= Seq::empty());
    let value: Json = evidence::envelope(
        Some(research_id),
        data,
        context,
        batch.evidence,
        none,
        now,
    );
    ImageAnswer { value, images: batch.blocks, evidence: kept }
}

/// The result of an image that is shown tells which of the images it is.
pub proof fn shown_images_are_indexed(
    batch: ImageBatchV,
    reference: Seq<char>,
    stored: StoredRefV,
    context_id: Seq<char>,
    image: FetchedImageV,
    id: Seq<char>,
)
    requires
        batch.blocks.len() < u64::MAX,
    ensures
        ({
            let after = batch.with_image(reference, stored, context_id, image, id);
            &&& after.results.len() == batch.results.len() + 1
            &&& after.results.last().get("imageRef"@) == Some(JsonV::Text(reference))
            &&& match after.results.last().field("contentIndex"@).as_unsigned() {
                Some(n) => {
                    &&& 0 < n <= after.blocks.len()
                    &&& after.blocks[n - 1] == (image.mime_type, image.data)
                },
                None => after.blocks == batch.blocks,
            }
        }),
{
    broadcast use json::lemma_get_with;

    reveal_strlit("imageRef");
    reveal_strlit("status");
    reveal_strlit("error");
    reveal_strlit("sourceKind");
    reveal_strlit("sourceRef");
    reveal_strlit("evidenceRefs");
    reveal_strlit("mimeType");
    reveal_strlit("width");
    reveal_strlit("height");
    reveal_strlit("sha256");
    reveal_strlit("retrievedAt");
    reveal_strlit("contentIndex");
    assert("imageRef"@[0] != "mimeType"@[0]);
    assert("contentIndex"@[0] != "evidenceRefs"@[0]);
}

/// Adding an image keeps every earlier result and image in its place.
pub proof fn added_images_keep_the_others(
    batch: ImageBatchV,
    reference: Seq<char>,
    stored: StoredRefV,
    context_id: Seq<char>,
    image: FetchedImageV,
    id: Seq<char>,
)
    requires
        batch.valid(),
    ensures
        ({
            let after = batch.with_image(reference, stored, context_id, image, id);
            &&& after.valid()
            &&& after.results.drop_last() == batch.results
            &&& batch.blocks == after.blocks.take(batch.blocks.len() as int)
        }),
{
    let after = batch.with_image(reference, stored, context_id, image, id);
    assert(after.results.drop_last() =~= batch.results);
    assert(batch.blocks =~= after.blocks.take(batch.blocks.len() as int));
    assert(batch.blocks.push((image.mime_type, image.data)).drop_last() =~= batch.blocks);
}

} // verus!
