//! What the dashboard checks before it hands a change to the store, and how
//! it names what went wrong.

use vstd::prelude::*;
use crate::config::{blank, note, texts_view};
use crate::level::{Level, in_unit_interval, lt_bits};
use crate::text::{contains_text, is_blank, occurs_in, push_str};

verus! {

/// What went wrong with a request.
#[derive(Debug)]
pub enum ApiError {
    /// There is no such record.
    NotFound(String),
    /// The request breaks these rules.
    Validation(Vec<String>),
    /// The change would leave other records without what they refer to.
    Conflict(String),
    /// The store failed.
    Internal(String),
}

/// An `ApiError` with its texts as characters.
pub ghost enum ApiErrorView {
    NotFound(Seq<char>),
    Validation(Seq<Seq<char>>),
    Conflict(Seq<char>),
    Internal(Seq<char>),
}

impl View for ApiError {
    type V = ApiErrorView;

    open spec fn view(&self) -> ApiErrorView {
        match *self {
            ApiError::NotFound(m) => ApiErrorView::NotFound(m@),
            ApiError::Validation(ms) => ApiErrorView::Validation(texts_view(ms@)),
            ApiError::Conflict(m) => ApiErrorView::Conflict(m@),
            ApiError::Internal(m) => ApiErrorView::Internal(m@),
        }
    }
}

impl ApiError {
    /// The status of the answer: 404, 422, 409 or 500.
    pub fn status_code(&self) -> (code: u16)
        ensures
            code == match *self {
                ApiError::NotFound(_) => 404u16,
                ApiError::Validation(_) => 422u16,
                ApiError::Conflict(_) => 409u16,
                ApiError::Internal(_) => 500u16,
            },
    {
        match self {
            ApiError::NotFound(_) => 404,
            ApiError::Validation(_) => 422,
            ApiError::Conflict(_) => 409,
            ApiError::Internal(_) => 500,
        }
    }

    /// The word by which the answer names the kind of error.
    pub fn kind(&self) -> (word: &'static str)
        ensures
            word@ == match *self {
                ApiError::NotFound(_) => "not_found"@,
                ApiError::Validation(_) => "validation"@,
                ApiError::Conflict(_) => "conflict"@,
                ApiError::Internal(_) => "internal"@,
            },
    {
        match self {
            ApiError::NotFound(_) => "not_found",
            ApiError::Validation(_) => "validation",
            ApiError::Conflict(_) => "conflict",
            ApiError::Internal(_) => "internal",
        }
    }
}

/// The settings of a zone as a request gives them.
#[derive(Debug)]
pub struct ZonePayload {
    pub name: String,
    pub min_moisture: Level,
    pub target_moisture: Level,
    pub pulse_sec: i64,
    pub soak_min: i64,
    pub max_open_sec_per_day: i64,
    pub max_pulses_per_day: i64,
    pub stale_timeout_min: i64,
    pub valve_gpio_pin: i64,
}

/// The settings of a sensor as a request gives them.
#[derive(Debug)]
pub struct SensorPayload {
    pub node_id: String,
    pub zone_id: String,
    pub raw_dry: i64,
    pub raw_wet: i64,
}

/// What is wrong with the settings of a zone, in the order in which they are
/// looked at: the name is not blank, both moistures lie between 0 and 1,
/// the target is not below the minimum, the times and caps are positive, and
/// the pin is not negative.
pub open spec fn zone_payload_errors(p: ZonePayload) -> Seq<Seq<char>> {
    note(blank(p.name@), "name must not be empty"@) + note(
        !in_unit_interval(p.min_moisture.bits),
        "min_moisture must be in 0.0..=1.0"@,
    ) + note(!in_unit_interval(p.target_moisture.bits), "target_moisture must be in 0.0..=1.0"@)
        + note(
        lt_bits(p.target_moisture.bits, p.min_moisture.bits),
        "target_moisture must be >= min_moisture"@,
    ) + note(p.pulse_sec <= 0, "pulse_sec must be > 0"@) + note(
        p.soak_min <= 0,
        "soak_min must be > 0"@,
    ) + note(p.max_open_sec_per_day <= 0, "max_open_sec_per_day must be > 0"@) + note(
        p.max_pulses_per_day <= 0,
        "max_pulses_per_day must be > 0"@,
    ) + note(p.stale_timeout_min <= 0, "stale_timeout_min must be > 0"@) + note(
        p.valve_gpio_pin < 0,
        "valve_gpio_pin must be >= 0"@,
    )
}

/// What is wrong with the settings of a sensor: node and zone are not blank,
/// and the calibration endpoints differ.
pub open spec fn sensor_payload_errors(p: SensorPayload) -> Seq<Seq<char>> {
    note(blank(p.node_id@), "node_id must not be empty"@) + note(
        blank(p.zone_id@),
        "zone_id must not be empty"@,
    ) + note(p.raw_dry == p.raw_wet, "raw_dry and raw_wet must differ"@)
}

fn rule(errs: &mut Vec<String>, broken: bool, text: &str)
    ensures
        texts_view(final(errs)@) == texts_view(old(errs)@) + note(broken, text@),
{
    let ghost before = texts_view(errs@);
    if broken {
        let mut t: String = String::new();
        push_str(&mut t, text);
        errs.push(t);
        assert(texts_view(errs@) =~= before + seq![text@]);
    } else {
        assert(texts_view(errs@) =~= before + Seq::<Seq<char>>::empty());
    }
}

fn verdict(errs: Vec<String>) -> (r: Result<(), ApiError>)
    ensures
        match r {
            Ok(_) => errs@.len() == 0,
            Err(e) => errs@.len() > 0 && e@ == ApiErrorView::Validation(texts_view(errs@)),
        },
{
    if errs.len() == 0 {
        Ok(())
    } else {
        Err(ApiError::Validation(errs))
    }
}

/// Checks the settings of a zone: `Ok` if nothing is wrong, else every
/// error at once.
pub fn validate_zone(p: &ZonePayload) -> (r: Result<(), ApiError>)
    ensures
        match r {
            Ok(_) => zone_payload_errors(*p).len() == 0,
            Err(e) => zone_payload_errors(*p).len() > 0 && e@ == ApiErrorView::Validation(
                zone_payload_errors(*p),
            ),
        },
{
    let mut errs: Vec<String> = Vec::new();
    assert(texts_view(errs@) =~= Seq::<Seq<char>>::empty());
    rule(&mut errs, is_blank(p.name.as_str()), "name must not be empty");
    assert(texts_view(errs@) =~= note(blank(p.name@), "name must not be empty"@));
    rule(&mut errs, !p.min_moisture.is_unit(), "min_moisture must be in 0.0..=1.0");
    rule(&mut errs, !p.target_moisture.is_unit(), "target_moisture must be in 0.0..=1.0");
    rule(
        &mut errs,
        p.target_moisture.lt(&p.min_moisture),
        "target_moisture must be >= min_moisture",
    );
    rule(&mut errs, p.pulse_sec <= 0, "pulse_sec must be > 0");
    rule(&mut errs, p.soak_min <= 0, "soak_min must be > 0");
    rule(&mut errs, p.max_open_sec_per_day <= 0, "max_open_sec_per_day must be > 0");
    rule(&mut errs, p.max_pulses_per_day <= 0, "max_pulses_per_day must be > 0");
    rule(&mut errs, p.stale_timeout_min <= 0, "stale_timeout_min must be > 0");
    rule(&mut errs, p.valve_gpio_pin < 0, "valve_gpio_pin must be >= 0");
    verdict(errs)
}

/// Checks the settings of a sensor: `Ok` if nothing is wrong, else every
/// error at once.
pub fn validate_sensor(p: &SensorPayload) -> (r: Result<(), ApiError>)
    ensures
        match r {
            Ok(_) => sensor_payload_errors(*p).len() == 0,
            Err(e) => sensor_payload_errors(*p).len() > 0 && e@ == ApiErrorView::Validation(
                sensor_payload_errors(*p),
            ),
        },
{
    let mut errs: Vec<String> = Vec::new();
    assert(texts_view(errs@) =~= Seq::<Seq<char>>::empty());
    rule(&mut errs, is_blank(p.node_id.as_str()), "node_id must not be empty");
    assert(texts_view(errs@) =~= note(blank(p.node_id@), "node_id must not be empty"@));
    rule(&mut errs, is_blank(p.zone_id.as_str()), "zone_id must not be empty");
    rule(&mut errs, p.raw_dry == p.raw_wet, "raw_dry and raw_wet must differ");
    verdict(errs)
}

/// The error of a sensor that names a zone which the store does not have.
pub fn unknown_zone(zone_id: &str) -> (e: ApiError)
    ensures
        e@ == ApiErrorView::Validation(seq!["zone '"@ + zone_id@ + "' does not exist"@]),
{
    let mut t: String = String::new();
    push_str(&mut t, "zone '");
    push_str(&mut t, zone_id);
    push_str(&mut t, "' does not exist");
    let mut errs: Vec<String> = Vec::new();
    errs.push(t);
    assert(texts_view(errs@) =~= seq!["zone '"@ + zone_id@ + "' does not exist"@]);
    ApiError::Validation(errs)
}

/// The error of a record that is not there: `kind` is `zone` or `sensor`.
pub fn not_found(kind: &str, id: &str) -> (e: ApiError)
    ensures
        e@ == ApiErrorView::NotFound(kind@ + " '"@ + id@ + "' not found"@),
{
    let mut t: String = String::new();
    push_str(&mut t, kind);
    push_str(&mut t, " '");
    push_str(&mut t, id);
    push_str(&mut t, "' not found");
    assert(t@ =~= kind@ + " '"@ + id@ + "' not found"@);
    ApiError::NotFound(t)
}

/// What a failed delete means. `full` is the error of the store with all
/// its causes, `brief` the error alone. A delete that a foreign key does
/// not allow is a conflict; any other failure is the store's own.
pub fn db_delete_err(full: &str, brief: &str) -> (e: ApiError)
    ensures
        e@ == if occurs_in("FOREIGN KEY constraint failed"@, full@) {
            ApiErrorView::Conflict("cannot delete: referenced by other records"@)
        } else {
            ApiErrorView::Internal(brief@)
        },
{
    let mut t: String = String::new();
    if contains_text(full, "FOREIGN KEY constraint failed") {
        push_str(&mut t, "cannot delete: referenced by other records");
        ApiError::Conflict(t)
    } else {
        push_str(&mut t, brief);
        ApiError::Internal(t)
    }
}

/// How many rows a list request gets: what it asks for, held between 1 and
/// 1000; 100 where it does not say.
pub fn page_limit(limit: Option<i64>) -> (n: i64)
    ensures
        n == match limit {
            Some(l) => if l < 1 {
                1
            } else if l > 1000 {
                1000
            } else {
                l
            },
            None => 100,
        },
{
    match limit {
        Some(l) => if l < 1 {
            1
        } else if l > 1000 {
            1000
        } else {
            l
        },
        None => 100,
    }
}

/// How many rows a list request skips: what it asks for, at least 0; 0
/// where it does not say.
pub fn page_offset(offset: Option<i64>) -> (n: i64)
    ensures
        n == match offset {
            Some(o) => if o < 0 {
                0
            } else {
                o
            },
            None => 0,
        },
{
    match offset {
        Some(o) => if o < 0 {
            0
        } else {
            o
        },
        None => 0,
    }
}

} // verus!
