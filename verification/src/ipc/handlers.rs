//! Decisions of the handlers of the control API.
//!
//! Each function takes what was read from the request and from the Matter backend, and
//! gives the body of the answer or the refusal.
use super::types::{
    BridgeStatus, ClosePairingResponse, ErrorBody, HealthResponse, OpenPairingRequest,
    OpenPairingResponse, PendingCommands,
};
use crate::catalog::error::CatalogErrorView;
use crate::catalog::{
    CatalogError, CatalogStore, CommandRequest, CreateExport, Export, HaStateUpdate, HaStateValue,
    PatchExport, StatePushResult,
};
use crate::catalog::{error, model, rules};
use crate::config::BackendKind;
use crate::matter::backend;
use crate::matter::backend::clamp_pairing_timeout;
use vstd::prelude::*;
use vstd::string::*;

verus! {

pub const STATUS_OK: u16 = 200;

pub const STATUS_CREATED: u16 = 201;

pub const STATUS_BAD_REQUEST: u16 = 400;

pub const STATUS_NOT_FOUND: u16 = 404;

pub const STATUS_INTERNAL_SERVER_ERROR: u16 = 500;

/// A refusal: HTTP status and body.
#[derive(Debug, PartialEq, Eq)]
pub struct Refusal {
    pub status: u16,
    pub body: ErrorBody,
}

impl Refusal {
    /// Whether the refusal has this status, error key and message.
    pub open spec fn says(self, status: u16, error: Seq<char>, message: Seq<char>) -> bool {
        self.status == status && self.body.error@ == error && self.body.message@ == message
    }

    /// Whether the refusal answers a catalog error: 404 for a missing export, 400 for an
    /// invalid request, 500 for the rest.
    pub open spec fn answers(self, e: CatalogErrorView) -> bool {
        match e {
            CatalogErrorView::NotFound(_) => self.says(
                STATUS_NOT_FOUND,
                "not_found"@,
                error::error_text(e),
            ),
            CatalogErrorView::Invalid(m) => self.says(STATUS_BAD_REQUEST, "invalid"@, m),
            _ => self.says(STATUS_INTERNAL_SERVER_ERROR, "internal"@, error::error_text(e)),
        }
    }
}

/// Answers a catalog error.
pub fn catalog_err(err: CatalogError) -> (r: Refusal)
    ensures
        r.answers(err@),
{
    match err {
        CatalogError::NotFound(id) => Refusal {
            status: STATUS_NOT_FOUND,
            body: ErrorBody {
                error: "not_found".to_owned(),
                message: CatalogError::NotFound(id).message(),
            },
        },
        CatalogError::Invalid(m) => Refusal {
            status: STATUS_BAD_REQUEST,
            body: ErrorBody { error: "invalid".to_owned(), message: m },
        },
        other => Refusal {
            status: STATUS_INTERNAL_SERVER_ERROR,
            body: ErrorBody { error: "internal".to_owned(), message: other.message() },
        },
    }
}

/// Answers a failure of the bridge itself.
pub fn internal(message: String) -> (r: Refusal)
    ensures
        r.says(STATUS_INTERNAL_SERVER_ERROR, "internal"@, message@),
{
    Refusal {
        status: STATUS_INTERNAL_SERVER_ERROR,
        body: ErrorBody { error: "internal".to_owned(), message },
    }
}

/// Answers a request that makes no sense.
pub fn bad_request(message: String) -> (r: Refusal)
    ensures
        r.says(STATUS_BAD_REQUEST, "invalid"@, message@),
{
    Refusal {
        status: STATUS_BAD_REQUEST,
        body: ErrorBody { error: "invalid".to_owned(), message },
    }
}

/// `GET /health`: the bridge is well only while the Matter backend runs.
pub fn health(running: bool, version: &str) -> (r: HealthResponse)
    ensures
        r.ok == running,
        r.version@ == version@,
{
    HealthResponse { ok: running, version: version.to_owned() }
}

/// `GET /status`.
pub fn status(
    catalog: &CatalogStore,
    kind: BackendKind,
    running: bool,
    pairing_open: bool,
    commissioned_fabrics: u8,
    error: Option<String>,
) -> (r: BridgeStatus)
    ensures
        r.bridge_name@ == catalog@.bridge_name,
        r.running == running,
        r.matter_backend@ == kind.wire_text(),
        r.pairing_open == pairing_open,
        r.commissioned_fabrics == commissioned_fabrics,
        r.export_count == catalog@.exports.dom().len() as u32,
        r.enabled_export_count == rules::enabled_ids(catalog@.exports).len() as u32,
        r.error == error,
{
    BridgeStatus {
        bridge_name: catalog.bridge_name().to_owned(),
        running,
        matter_backend: kind.as_wire_str().to_owned(),
        pairing_open,
        commissioned_fabrics,
        export_count: catalog.export_count() as u32,
        enabled_export_count: catalog.enabled_export_count() as u32,
        error,
    }
}

/// Body of `POST /pairing/open` as it was read.
#[derive(Debug)]
pub enum OpenPairingBody {
    Empty,
    Parsed(OpenPairingRequest),
    /// Why the body could not be read.
    Malformed(String),
}

/// `POST /pairing/open`, before the window is opened: for how long to open it.
pub fn open_pairing(body: OpenPairingBody) -> (r: Result<u16, Refusal>)
    ensures
        match body {
            OpenPairingBody::Empty => r == Ok::<u16, Refusal>(300),
            OpenPairingBody::Parsed(req) => r == Ok::<u16, Refusal>(
                backend::clamped_timeout(req.timeout_secs),
            ),
            OpenPairingBody::Malformed(why) => r matches Err(refusal) && refusal.says(
                STATUS_BAD_REQUEST,
                "invalid"@,
                "invalid open pairing body: "@ + why@,
            ),
        },
{
    match body {
        OpenPairingBody::Empty => Ok(
            clamp_pairing_timeout(OpenPairingRequest::default().timeout_secs),
        ),
        OpenPairingBody::Parsed(req) => Ok(clamp_pairing_timeout(req.timeout_secs)),
        OpenPairingBody::Malformed(why) => Err(
            bad_request("invalid open pairing body: ".to_owned().concat(why.as_str())),
        ),
    }
}

/// `POST /pairing/open`, once the backend has tried to open the window.
pub fn opened_pairing(timeout_secs: u16, opened: Result<(), String>) -> (r: Result<
    OpenPairingResponse,
    Refusal,
>)
    ensures
        match opened {
            Ok(_) => r == Ok::<OpenPairingResponse, Refusal>(
                OpenPairingResponse { pairing_open: true, timeout_secs },
            ),
            Err(e) => r matches Err(refusal) && refusal.says(
                STATUS_INTERNAL_SERVER_ERROR,
                "internal"@,
                e@,
            ),
        },
{
    match opened {
        Ok(_) => Ok(OpenPairingResponse { pairing_open: true, timeout_secs }),
        Err(e) => Err(internal(e)),
    }
}

/// `POST /pairing/close`, once the backend has tried to close the window.
pub fn close_pairing(closed: Result<(), String>) -> (r: Result<ClosePairingResponse, Refusal>)
    ensures
        match closed {
            Ok(_) => r == Ok::<ClosePairingResponse, Refusal>(
                ClosePairingResponse { pairing_open: false },
            ),
            Err(e) => r matches Err(refusal) && refusal.says(
                STATUS_INTERNAL_SERVER_ERROR,
                "internal"@,
                e@,
            ),
        },
{
    match closed {
        Ok(_) => Ok(ClosePairingResponse { pairing_open: false }),
        Err(e) => Err(internal(e)),
    }
}

/// `GET /exports`.
pub fn list_exports(catalog: &CatalogStore) -> (r: Vec<Export>)
    requires
        catalog.wf(),
    ensures
        rules::is_listing(catalog@.exports, model::export_views(r@)),
{
    catalog.list()
}

/// `GET /exports/{id}`.
pub fn get_export(catalog: &CatalogStore, id: u128) -> (r: Result<Export, Refusal>)
    ensures
        match r {
            Ok(e) => catalog@.exports.contains_key(id) && e@ == catalog@.exports[id],
            Err(refusal) => !catalog@.exports.contains_key(id) && refusal.answers(
                CatalogErrorView::NotFound(id),
            ),
        },
{
    match catalog.get(id) {
        Some(e) => Ok(e),
        None => Err(catalog_err(CatalogError::NotFound(id))),
    }
}

/// Whether `r` answers an operation on one export that came out as `outcome`.
pub open spec fn answers_outcome(
    r: Result<Export, Refusal>,
    outcome: Result<model::ExportView, CatalogErrorView>,
) -> bool {
    match r {
        Ok(e) => outcome == Ok::<model::ExportView, CatalogErrorView>(e@),
        Err(refusal) => outcome is Err && refusal.answers(outcome->Err_0),
    }
}

/// Answers an operation on one export.
fn answer(result: Result<Export, CatalogError>) -> (r: Result<Export, Refusal>)
    ensures
        answers_outcome(r, rules::outcome_of(result)),
{
    match result {
        Ok(e) => Ok(e),
        Err(e) => Err(catalog_err(e)),
    }
}

/// `POST /exports`, answered with 201.
pub fn create_export(catalog: &mut CatalogStore, body: CreateExport) -> (r: Result<
    Export,
    Refusal,
>)
    requires
        old(catalog).wf(),
    ensures
        final(catalog).wf(),
        exists|id: u128|
            {
                let outcome = #[trigger] rules::create_outcome(old(catalog)@, id, body);
                &&& match body.export_id {
                    Some(given) => id == given,
                    None => crate::ids::is_random_id(id),
                }
                &&& final(catalog)@ == outcome.0
                &&& answers_outcome(r, outcome.1)
            },
{
    answer(catalog.create(body))
}

/// `PATCH /exports/{id}`.
pub fn patch_export(catalog: &mut CatalogStore, id: u128, body: PatchExport) -> (r: Result<
    Export,
    Refusal,
>)
    requires
        old(catalog).wf(),
    ensures
        final(catalog).wf(),
        final(catalog)@ == rules::patch_outcome(old(catalog)@, id, body).0,
        answers_outcome(r, rules::patch_outcome(old(catalog)@, id, body).1),
{
    answer(catalog.patch(id, body))
}

/// `DELETE /exports/{id}`.
pub fn delete_export(catalog: &mut CatalogStore, id: u128) -> (r: Result<Export, Refusal>)
    requires
        old(catalog).wf(),
    ensures
        final(catalog).wf(),
        final(catalog)@ == rules::delete_outcome(old(catalog)@, id).0,
        answers_outcome(r, rules::delete_outcome(old(catalog)@, id).1),
{
    answer(catalog.delete(id))
}

/// The answer to a change of the catalog, once the backend has tried to take it over.
pub fn synced(changed: Export, taken_over: Result<(), String>) -> (r: Result<Export, Refusal>)
    ensures
        match taken_over {
            Ok(_) => r == Ok::<Export, Refusal>(changed),
            Err(e) => r matches Err(refusal) && refusal.says(
                STATUS_INTERNAL_SERVER_ERROR,
                "internal"@,
                e@,
            ),
        },
{
    match taken_over {
        Ok(_) => Ok(changed),
        Err(e) => Err(internal(e)),
    }
}

/// Body of a state push as it was read: whether it was empty, and what it gave when read as
/// an update and as a single state.
#[derive(Debug)]
pub struct StateBody {
    pub empty: bool,
    pub update: Option<HaStateUpdate>,
    pub single: Option<HaStateValue>,
}

/// The states that a body gives: those of an update, else a single one.
pub fn parse_state_body(body: StateBody) -> (r: Result<Vec<HaStateValue>, String>)
    ensures
        if body.empty {
            r matches Err(m) && m@ == "empty body"@
        } else if body.update is Some {
            r == Ok::<Vec<HaStateValue>, String>(body.update->0.states)
        } else if body.single is Some {
            r matches Ok(states) && states@ == seq![body.single->0]
        } else {
            r matches Err(m) && m@ == "body must be HaStateUpdate or HaStateValue JSON"@
        },
{
    if body.empty {
        return Err("empty body".to_owned());
    }
    if let Some(update) = body.update {
        return Ok(update.states);
    }
    if let Some(one) = body.single {
        let states: Vec<HaStateValue> = vec![one];
        assert(states@ =~= seq![one]);
        return Ok(states);
    }
    Err("body must be HaStateUpdate or HaStateValue JSON".to_owned())
}

/// `POST /exports/{id}/state`, before the states are applied: which states to apply. A
/// missing export is answered before the body is looked at.
pub fn push_state(catalog: &CatalogStore, id: u128, body: StateBody) -> (r: Result<
    Vec<HaStateValue>,
    Refusal,
>)
    ensures
        if !catalog@.exports.contains_key(id) {
            r matches Err(refusal) && refusal.answers(CatalogErrorView::NotFound(id))
        } else if body.empty {
            r matches Err(refusal) && refusal.says(STATUS_BAD_REQUEST, "invalid"@, "empty body"@)
        } else if body.update is Some {
            r == Ok::<Vec<HaStateValue>, Refusal>(body.update->0.states)
        } else if body.single is Some {
            r matches Ok(states) && states@ == seq![body.single->0]
        } else {
            r matches Err(refusal) && refusal.says(
                STATUS_BAD_REQUEST,
                "invalid"@,
                "body must be HaStateUpdate or HaStateValue JSON"@,
            )
        },
{
    if catalog.get(id).is_none() {
        return Err(catalog_err(CatalogError::NotFound(id)));
    }
    match parse_state_body(body) {
        Ok(states) => Ok(states),
        Err(m) => Err(bad_request(m)),
    }
}

/// `POST /exports/{id}/state`, once the backend has applied the states.
pub fn pushed_state(applied: Result<u32, String>) -> (r: Result<StatePushResult, Refusal>)
    ensures
        match applied {
            Ok(n) => r == Ok::<StatePushResult, Refusal>(StatePushResult { applied: n }),
            Err(e) => r matches Err(refusal) && refusal.says(
                STATUS_INTERNAL_SERVER_ERROR,
                "internal"@,
                e@,
            ),
        },
{
    match applied {
        Ok(n) => Ok(StatePushResult { applied: n }),
        Err(e) => Err(internal(e)),
    }
}

/// `GET /commands`.
pub fn take_commands(commands: Vec<CommandRequest>) -> (r: PendingCommands)
    ensures
        r.commands == commands,
{
    PendingCommands { commands }
}

/// A missing export is refused with 404, an invalid request with 400 and its own message, and
/// anything else with 500; a refusal other than for an invalid request carries the message of
/// the error.
pub proof fn law_refusals(r: Refusal, id: u128, m: Seq<char>)
    ensures
        r.answers(CatalogErrorView::NotFound(id)) <==> r.status == 404 && r.body.error@
            == "not_found"@ && r.body.message@ == error::error_text(CatalogErrorView::NotFound(id)),
        r.answers(CatalogErrorView::Invalid(m)) <==> r.status == 400 && r.body.error@ == "invalid"@
            && r.body.message@ == m,
        r.answers(CatalogErrorView::EndpointExhausted) <==> r.status == 500 && r.body.error@
            == "internal"@ && r.body.message@ == error::error_text(
            CatalogErrorView::EndpointExhausted,
        ),
        r.answers(CatalogErrorView::Io(m)) <==> r.status == 500 && r.body.error@ == "internal"@
            && r.body.message@ == error::error_text(CatalogErrorView::Io(m)),
        r.answers(CatalogErrorView::Json(m)) <==> r.status == 500 && r.body.error@ == "internal"@
            && r.body.message@ == error::error_text(CatalogErrorView::Json(m)),
        STATUS_OK == 200,
        STATUS_CREATED == 201,
{
}

/// A refusal says its status, its key and its message, all three.
pub proof fn law_refusal_says(r: Refusal, status: u16, key: Seq<char>, message: Seq<char>)
    ensures
        r.says(status, key, message) <==> r.status == status && r.body.error@ == key
            && r.body.message@ == message,
{
}

/// An operation that succeeds is answered with its export, and one that fails with the refusal
/// for its error.
pub proof fn law_answers(
    r: Result<Export, Refusal>,
    e: model::ExportView,
    error: CatalogErrorView,
)
    ensures
        answers_outcome(r, Ok(e)) <==> r is Ok && r->Ok_0@ == e,
        answers_outcome(r, Err(error)) <==> r is Err && r->Err_0.answers(error),
{
}

} // verus!
