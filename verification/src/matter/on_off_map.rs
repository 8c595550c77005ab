//! On/off mapping between entity state and Matter controller commands.
use crate::catalog::{CommandKind, CommandRequest, DeviceType, Export, HaStateValue};
use crate::text::{is_less, split_before, str_eq, to_lower, trim};
use vstd::prelude::*;

verus! {

/// What an entity state says of on and off, trimmed and without regard to ASCII case.
pub open spec fn state_on(state: Seq<char>) -> Option<bool> {
    let s = crate::text::lowercased(crate::text::trimmed(state));
    if s == "on"@ || s == "true"@ || s == "1"@ || s == "open"@ || s == "home"@ || s == "locked"@ {
        Some(true)
    } else if s == "off"@ || s == "false"@ || s == "0"@ || s == "closed"@ || s == "not_home"@ || s
        == "unlocked"@ {
        Some(false)
    } else {
        None
    }
}

/// Interprets an entity state as on or off where possible.
pub fn ha_state_is_on(state: &str) -> (r: Option<bool>)
    ensures
        r == state_on(state@),
{
    let folded: String = to_lower(trim(state).as_str());
    let s: &str = folded.as_str();
    if str_eq(s, "on") || str_eq(s, "true") || str_eq(s, "1") || str_eq(s, "open") || str_eq(
        s,
        "home",
    ) || str_eq(s, "locked") {
        Some(true)
    } else if str_eq(s, "off") || str_eq(s, "false") || str_eq(s, "0") || str_eq(s, "closed")
        || str_eq(s, "not_home") || str_eq(s, "unlocked") {
        Some(false)
    } else {
        None
    }
}

/// The command with which a controller switches an export.
pub open spec fn on_off_request(export_id: u128, on: bool) -> CommandRequest {
    CommandRequest {
        export_id,
        kind: CommandKind::OnOff,
        on: Some(on),
        level: None,
        position: None,
    }
}

/// Builds the command with which a controller switches an export.
pub fn on_off_command(export_id: u128, on: bool) -> (r: CommandRequest)
    ensures
        r == on_off_request(export_id, on),
{
    CommandRequest { export_id, kind: CommandKind::OnOff, on: Some(on), level: None, position: None }
}

/// The first on/off value among `states`; with `only` just among those of that entity.
pub open spec fn first_on(states: Seq<HaStateValue>, only: Option<Seq<char>>) -> Option<bool>
    decreases states.len(),
{
    if states.len() == 0 {
        None
    } else if (only is None || states[0].entity_id@ == only->0) && state_on(states[0].state@) is Some {
        state_on(states[0].state@)
    } else {
        first_on(states.drop_first(), only)
    }
}

/// The on/off value of an export: that of its primary entity where it has one, else the
/// first there is. Types without on/off control have none.
pub open spec fn resolved_on(
    type_: DeviceType,
    primary: Seq<char>,
    states: Seq<HaStateValue>,
) -> Option<bool> {
    if !type_.on_off_capable() {
        None
    } else if first_on(states, Some(primary)) is Some {
        first_on(states, Some(primary))
    } else {
        first_on(states, None)
    }
}

/// The first on/off value among `states`; with `only` just among those of that entity.
fn find_on(states: &[HaStateValue], only: Option<&str>) -> (r: Option<bool>)
    ensures
        r == first_on(
            states@,
            match only {
                Some(s) => Some(s@),
                None => None,
            },
        ),
{
    let ghost wanted = match only {
        Some(s) => Some(s@),
        None => None,
    };
    assert(states@.skip(0) =~= states@);
    for i in 0..states.len()
        invariant
            wanted == (match only {
                Some(s) => Some(s@),
                None => None,
            }),
            first_on(states@, wanted) == first_on(states@.skip(i as int), wanted),
    {
        let applies: bool = match only {
            Some(entity) => str_eq(states[i].entity_id.as_str(), entity),
            None => true,
        };
        assert(states@.skip(i as int)[0] == states@[i as int]);
        assert(states@.skip(i as int).drop_first() =~= states@.skip(i + 1));
        if applies {
            let on: Option<bool> = ha_state_is_on(states[i].state.as_str());
            if on.is_some() {
                return on;
            }
        }
    }
    None
}

/// Resolves the on/off value of an export from a batch of entity states.
pub fn on_off_from_states(export: &Export, states: &[HaStateValue]) -> (r: Option<bool>)
    ensures
        r == resolved_on(export.type_, export.primary_entity_id@, states@),
{
    if !export.type_.is_on_off_capable() {
        return None;
    }
    let primary: Option<bool> = find_on(states, Some(export.primary_entity_id.as_str()));
    if primary.is_some() {
        return primary;
    }
    find_on(states, None)
}

/// Whether an export is published as an on/off endpoint: enabled, and of an on/off type.
pub open spec fn bridged(enabled: bool, type_: DeviceType) -> bool {
    enabled && type_.on_off_capable()
}

/// Whether this export is published as a Matter on/off endpoint.
pub fn is_matter_on_off_export(export: &Export) -> (r: bool)
    ensures
        r == bridged(export.enabled, export.type_),
{
    export.enabled && export.type_.is_on_off_capable()
}

/// The endpoint id, or the greatest one where none is assigned.
pub open spec fn endpoint_rank(e: Export) -> u16 {
    match e.endpoint_id {
        Some(ep) => ep,
        None => u16::MAX,
    }
}

/// Whether `a` ranks before `b`: by endpoint id, then by name.
pub open spec fn ranks_before(a: Export, b: Export) -> bool {
    endpoint_rank(a) < endpoint_rank(b) || (endpoint_rank(a) == endpoint_rank(b)
        && crate::text::text_less(a.name@, b.name@))
}

/// Whether `i` is the export that ranks first of those published, the first of equals.
pub open spec fn is_primary(exports: Seq<Export>, i: int) -> bool {
    &&& 0 <= i < exports.len()
    &&& bridged(exports[i].enabled, exports[i].type_)
    &&& forall|j: int|
        0 <= j < exports.len() && bridged((#[trigger] exports[j]).enabled, exports[j].type_) ==> (
        if j < i {
            ranks_before(exports[i], exports[j])
        } else {
            !ranks_before(exports[j], exports[i])
        })
}

/// The endpoint id, or the greatest one where none is assigned.
fn rank_of(e: &Export) -> (r: u16)
    ensures
        r == endpoint_rank(*e),
{
    match e.endpoint_id {
        Some(ep) => ep,
        None => u16::MAX,
    }
}

/// Whether `a` ranks before `b`: by endpoint id, then by name.
fn comes_before(a: &Export, b: &Export) -> (r: bool)
    ensures
        r == ranks_before(*a, *b),
{
    let x: u16 = rank_of(a);
    let y: u16 = rank_of(b);
    x < y || (x == y && is_less(a.name.as_str(), b.name.as_str()))
}

/// Ranking is transitive, and so is not ranking later.
proof fn lemma_text_order(a: Seq<char>, b: Seq<char>, c: Seq<char>)
    ensures
        crate::text::text_less(a, b) && !crate::text::text_less(c, b) ==> crate::text::text_less(
            a,
            c,
        ),
        crate::text::text_less(a, b) ==> !crate::text::text_less(b, a),
    decreases a.len(),
{
    if a.len() > 0 && b.len() > 0 && c.len() > 0 {
        lemma_text_order(a.drop_first(), b.drop_first(), c.drop_first());
    } else if a.len() > 0 && b.len() > 0 {
        lemma_text_order(a.drop_first(), b.drop_first(), c);
    }
}

/// Picks the primary on/off export: lowest endpoint id, then name.
pub fn primary_on_off_export(exports: &[Export]) -> (r: Option<&Export>)
    ensures
        match r {
            Some(e) => exists|i: int| #[trigger] is_primary(exports@, i) && *e == exports@[i],
            None => forall|i: int|
                0 <= i < exports@.len() ==> !bridged(
                    (#[trigger] exports@[i]).enabled,
                    exports@[i].type_,
                ),
        },
{
    let mut found: Option<usize> = None;
    for i in 0..exports.len()
        invariant
            match found {
                Some(b) => b < i && is_primary(exports@.take(i as int), b as int),
                None => forall|j: int|
                    0 <= j < i ==> !bridged((#[trigger] exports@[j]).enabled, exports@[j].type_),
            },
    {
        let ghost before = exports@.take(i as int);
        let ghost after = exports@.take(i + 1);
        assert(forall|j: int| 0 <= j < i ==> #[trigger] after[j] == before[j]);
        assert(after[i as int] == exports@[i as int]);
        if is_matter_on_off_export(&exports[i]) {
            match found {
                Some(b) => {
                    if comes_before(&exports[i], &exports[b]) {
                        proof {
                            assert forall|j: int|
                                0 <= j < after.len() && bridged(
                                    (#[trigger] after[j]).enabled,
                                    after[j].type_,
                                ) implies (if j < i {
                                ranks_before(after[i as int], after[j])
                            } else {
                                !ranks_before(after[j], after[i as int])
                            }) by {
                                let new = after[i as int].name@;
                                let old_best = after[b as int].name@;
                                lemma_text_order(new, old_best, after[j].name@);
                                lemma_text_order(new, new, new);
                                lemma_text_order(old_best, after[j].name@, old_best);
                                if j < i {
                                    assert(bridged(before[j].enabled, before[j].type_));
                                }
                            }
                        }
                        found = Some(i);
                    }
                },
                None => {
                    proof {
                        lemma_text_order(
                            exports@[i as int].name@,
                            exports@[i as int].name@,
                            exports@[i as int].name@,
                        );
                    }
                    found = Some(i);
                },
            }
        }
    }
    assert(exports@.take(exports@.len() as int) =~= exports@);
    match found {
        Some(b) => {
            assert(is_primary(exports@, b as int));
            Some(&exports[b])
        },
        None => None,
    }
}

/// The domain and the service that switch an entity.
pub open spec fn service_for(entity_id: Seq<char>, on: bool) -> (Seq<char>, Seq<char>) {
    let domain = crate::text::before(entity_id, '.');
    let service = if on {
        "turn_on"@
    } else {
        "turn_off"@
    };
    if domain == "light"@ {
        ("light"@, service)
    } else if domain == "input_boolean"@ {
        ("input_boolean"@, service)
    } else if domain == "cover"@ {
        (
            "cover"@,
            if on {
                "open_cover"@
            } else {
                "close_cover"@
            },
        )
    } else {
        ("switch"@, service)
    }
}

/// Suggests the domain and the service for an on/off command.
pub fn ha_service_for_on_off(entity_id: &str, on: bool) -> (r: (&'static str, &'static str))
    ensures
        (r.0@, r.1@) == service_for(entity_id@, on),
{
    let domain: &str = split_before(entity_id, '.');
    let service: &'static str = if on {
        "turn_on"
    } else {
        "turn_off"
    };
    if str_eq(domain, "light") {
        ("light", service)
    } else if str_eq(domain, "input_boolean") {
        ("input_boolean", service)
    } else if str_eq(domain, "cover") {
        if on {
            ("cover", "open_cover")
        } else {
            ("cover", "close_cover")
        }
    } else {
        ("switch", service)
    }
}

/// The device types with on/off control.
pub fn on_off_device_types() -> (r: [DeviceType; 4])
    ensures
        r@ == seq![
            DeviceType::Light,
            DeviceType::OnOffSwitch,
            DeviceType::OnOffPlug,
            DeviceType::Outlet,
        ],
        forall|t: DeviceType| #[trigger] t.on_off_capable() <==> r@.contains(t),
{
    let r = [
        DeviceType::Light,
        DeviceType::OnOffSwitch,
        DeviceType::OnOffPlug,
        DeviceType::Outlet,
    ];
    proof {
        assert(r@ =~= seq![
            DeviceType::Light,
            DeviceType::OnOffSwitch,
            DeviceType::OnOffPlug,
            DeviceType::Outlet,
        ]);
        assert(r@[0] == DeviceType::Light && r@[1] == DeviceType::OnOffSwitch && r@[2]
            == DeviceType::OnOffPlug && r@[3] == DeviceType::Outlet);
    }
    r
}

} // verus!
