//! The endpoints of the services, and the health probe.
use vstd::prelude::*;
use crate::api;
use crate::api::{tell_about, ApiResponse, Failure, FailureView};
use crate::services;
use crate::services::{BootMode, Service, ServiceManager, ServiceReport, ServiceResult};

verus! {

/// `GET /services`: the status of every service.
pub fn list_services<H>(manager: &ServiceManager<H>) -> (out: ApiResponse<Vec<ServiceReport>>)
    ensures
        out.ok,
        out.data@ == manager.reports(),
{
    ApiResponse::ok(manager.list())
}

/// The answer to a name that no service has.
pub open spec fn unknown_service(name: Seq<char>) -> FailureView {
    FailureView::bad(api::about("service"@, name, "is not controllable"@))
}

/// The service in the path of a request. Only the listeners can be controlled.
pub fn controlled_service(name: &str) -> (out: Result<Service, Failure>)
    ensures
        (match out {
            Ok(service) => services::service_of(name@) == Some(service),
            Err(f) => services::service_of(name@) is None && f@ == unknown_service(name@),
        }),
{
    match Service::parse(name) {
        Some(service) => Ok(service),
        None => Err(Failure::bad(tell_about("service", name, "is not controllable").as_str())),
    }
}

/// The answer to `POST /services/{service}/start` and `../stop`, from what came
/// of it.
pub fn service_answer(outcome: Result<ServiceResult, String>) -> (out: Result<
    ApiResponse<ServiceResult>,
    Failure,
>)
    ensures
        (match (outcome, out) {
            (Ok(result), Ok(reply)) => reply == (ApiResponse { ok: true, data: result }),
            (Err(e), Err(f)) => f@ == FailureView::server(e@),
            _ => false,
        }),
{
    match outcome {
        Ok(result) => Ok(ApiResponse::ok(result)),
        Err(e) => Err(Failure::server(e.as_str())),
    }
}

/// The body of a request to change the mode.
#[derive(Debug, Clone)]
pub struct NewMode {
    pub mode: String,
}

/// `POST /services/mode`: the mode that a request names.
pub fn wanted_mode(body: Option<NewMode>) -> (out: Result<BootMode, Failure>)
    ensures
        (match (body, out) {
            (Some(body), Ok(mode)) => services::mode_of(body.mode@) == Some(mode),
            (Some(body), Err(f)) => services::mode_of(body.mode@) is None && f@
                == FailureView::bad(api::about("mode"@, body.mode@, "is not known"@)),
            (None, Err(f)) => f@ == FailureView::unreadable(),
            (None, Ok(_)) => false,
        }),
{
    let body = match body {
        Some(body) => body,
        None => return Err(Failure::unreadable()),
    };
    match BootMode::parse(body.mode.as_str()) {
        Some(mode) => Ok(mode),
        None => Err(
            Failure::bad(tell_about("mode", body.mode.as_str(), "is not known").as_str()),
        ),
    }
}

/// What the health probe tells.
#[derive(Debug, Clone)]
pub struct HealthInfo {
    pub service: String,
    pub version: String,
    pub status: String,
}

/// `GET /health`: the probe of a running service of that version.
pub fn health(version: &str) -> (out: ApiResponse<HealthInfo>)
    ensures
        out.ok,
        out.data.service@ == "zonemail"@,
        out.data.version@ == version@,
        out.data.status@ == "healthy"@,
{
    ApiResponse::ok(
        HealthInfo {
            service: "zonemail".to_owned(),
            version: version.to_owned(),
            status: "healthy".to_owned(),
        },
    )
}

/// Only the listeners can be controlled: another name is answered with 400 and
/// named in the answer.
pub proof fn law_other_services_are_refused(name: Seq<char>)
    ensures
        unknown_service(name).status == 400,
        unknown_service(name).problem.detail == Some(
            "service"@ + " '"@ + name + "' "@ + "is not controllable"@,
        ),
{
}

} // verus!
