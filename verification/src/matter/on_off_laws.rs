//! What holds of the on/off mapping.
use super::on_off_map;
use crate::catalog::{CommandKind, DeviceType, Export, HaStateValue};
use crate::text;
use vstd::prelude::*;

verus! {

/// Lights, switches, plugs and outlets have on/off control; contact and motion sensors,
/// covers and garage doors have none.
pub proof fn law_on_off_types(t: DeviceType)
    ensures
        t == DeviceType::Light || t == DeviceType::OnOffSwitch || t == DeviceType::OnOffPlug || t
            == DeviceType::Outlet ==> t.on_off_capable(),
        t == DeviceType::Contact || t == DeviceType::Motion || t == DeviceType::Cover || t
            == DeviceType::Garage ==> !t.on_off_capable(),
{
}

/// The words that say on, and those that say off; no other word says either.
pub proof fn law_state_words(state: Seq<char>)
    ensures
        ({
            let word = text::lowercased(text::trimmed(state));
            let says_on = word == "on"@ || word == "true"@ || word == "1"@ || word == "open"@
                || word == "home"@ || word == "locked"@;
            let says_off = word == "off"@ || word == "false"@ || word == "0"@ || word == "closed"@
                || word == "not_home"@ || word == "unlocked"@;
            &&& !(says_on && says_off)
            &&& on_off_map::state_on(state) == Some(true) <==> says_on
            &&& on_off_map::state_on(state) == Some(false) <==> says_off
            &&& on_off_map::state_on(state) is None <==> !says_on && !says_off
        }),
{
    reveal_strlit("on");
    reveal_strlit("true");
    reveal_strlit("1");
    reveal_strlit("open");
    reveal_strlit("home");
    reveal_strlit("locked");
    reveal_strlit("off");
    reveal_strlit("false");
    reveal_strlit("0");
    reveal_strlit("closed");
    reveal_strlit("not_home");
    reveal_strlit("unlocked");
    let word = text::lowercased(text::trimmed(state));
    if word.len() == 4 {
        assert("true"@[0] == 't' && "open"@[0] == 'o' && "home"@[0] == 'h');
    }
    if word.len() == 1 {
        assert("1"@[0] == '1' && "0"@[0] == '0');
    }
    if word.len() == 6 {
        assert("locked"@[0] == 'l' && "closed"@[0] == 'c');
    }
}

/// White space around a state, and upper case in it, change nothing of what it says.
pub proof fn law_state_spelling(a: Seq<char>, b: Seq<char>)
    requires
        text::lowercased(text::trimmed(a)) == text::lowercased(text::trimmed(b)),
    ensures
        on_off_map::state_on(a) == on_off_map::state_on(b),
{
}

/// For a light, a switch, a plug or an outlet, the first state of the primary entity that
/// says on or off decides, whatever the other entities say.
pub proof fn law_primary_entity_decides(
    t: DeviceType,
    primary: Seq<char>,
    states: Seq<HaStateValue>,
    i: int,
)
    requires
        t == DeviceType::Light || t == DeviceType::OnOffSwitch || t == DeviceType::OnOffPlug || t
            == DeviceType::Outlet,
        0 <= i < states.len(),
        states[i].entity_id@ == primary,
        on_off_map::state_on(states[i].state@) is Some,
        forall|j: int|
            0 <= j < i && (#[trigger] states[j]).entity_id@ == primary ==> on_off_map::state_on(
                states[j].state@,
            ) is None,
    ensures
        on_off_map::resolved_on(t, primary, states) == on_off_map::state_on(states[i].state@),
{
    lemma_first_of(states, Some(primary), i);
}

/// Where no state of the primary entity says on or off, the first state that does decides.
pub proof fn law_first_entity_decides(
    t: DeviceType,
    primary: Seq<char>,
    states: Seq<HaStateValue>,
    i: int,
)
    requires
        t == DeviceType::Light || t == DeviceType::OnOffSwitch || t == DeviceType::OnOffPlug || t
            == DeviceType::Outlet,
        0 <= i < states.len(),
        on_off_map::state_on(states[i].state@) is Some,
        forall|j: int|
            0 <= j < i ==> on_off_map::state_on((#[trigger] states[j]).state@) is None,
        forall|j: int|
            0 <= j < states.len() && (#[trigger] states[j]).entity_id@ == primary
                ==> on_off_map::state_on(states[j].state@) is None,
    ensures
        on_off_map::resolved_on(t, primary, states) == on_off_map::state_on(states[i].state@),
{
    lemma_none_of(states, Some(primary));
    lemma_first_of(states, None, i);
}

/// Where no state says on or off, there is no value.
pub proof fn law_nothing_decides(t: DeviceType, primary: Seq<char>, states: Seq<HaStateValue>)
    requires
        forall|j: int|
            0 <= j < states.len() ==> on_off_map::state_on((#[trigger] states[j]).state@) is None,
    ensures
        on_off_map::resolved_on(t, primary, states) is None,
{
    lemma_none_of(states, Some(primary));
    lemma_none_of(states, None);
}

/// Contact and motion sensors, covers and garage doors have no on/off value, whatever the
/// states say.
pub proof fn law_other_types_have_no_value(
    t: DeviceType,
    primary: Seq<char>,
    states: Seq<HaStateValue>,
)
    requires
        t == DeviceType::Contact || t == DeviceType::Motion || t == DeviceType::Cover || t
            == DeviceType::Garage,
    ensures
        on_off_map::resolved_on(t, primary, states) is None,
{
}

/// The first state that applies and says on or off is the one found.
proof fn lemma_first_of(states: Seq<HaStateValue>, only: Option<Seq<char>>, i: int)
    requires
        0 <= i < states.len(),
        only is None || states[i].entity_id@ == only->0,
        on_off_map::state_on(states[i].state@) is Some,
        forall|j: int|
            0 <= j < i && (only is None || (#[trigger] states[j]).entity_id@ == only->0)
                ==> on_off_map::state_on(states[j].state@) is None,
    ensures
        on_off_map::first_on(states, only) == on_off_map::state_on(states[i].state@),
    decreases i,
{
    if i > 0 {
        let rest = states.drop_first();
        assert(states[0] == states[0]);
        assert forall|j: int|
            0 <= j < i - 1 && (only is None || (#[trigger] rest[j]).entity_id@ == only->0)
                implies on_off_map::state_on(rest[j].state@) is None by {
            assert(rest[j] == states[j + 1]);
        }
        lemma_first_of(rest, only, i - 1);
    }
}

/// Where no state that applies says on or off, none is found.
proof fn lemma_none_of(states: Seq<HaStateValue>, only: Option<Seq<char>>)
    requires
        forall|j: int|
            0 <= j < states.len() && (only is None || (#[trigger] states[j]).entity_id@ == only->0)
                ==> on_off_map::state_on(states[j].state@) is None,
    ensures
        on_off_map::first_on(states, only) is None,
    decreases states.len(),
{
    if states.len() > 0 {
        let rest = states.drop_first();
        assert(states[0] == states[0]);
        assert forall|j: int|
            0 <= j < rest.len() && (only is None || (#[trigger] rest[j]).entity_id@ == only->0)
                implies on_off_map::state_on(rest[j].state@) is None by {
            assert(rest[j] == states[j + 1]);
        }
        lemma_none_of(rest, only);
    }
}

/// An export is published exactly where it is enabled and a light, a switch, a plug or an
/// outlet.
pub proof fn law_published(enabled: bool, t: DeviceType)
    ensures
        on_off_map::bridged(enabled, t) <==> enabled && (t == DeviceType::Light || t
            == DeviceType::OnOffSwitch || t == DeviceType::OnOffPlug || t == DeviceType::Outlet),
{
}

/// The command with which a controller switches an export names that export and the value,
/// and nothing else.
pub proof fn law_command_of_a_switch(export_id: u128, on: bool)
    ensures
        on_off_map::on_off_request(export_id, on).export_id == export_id,
        on_off_map::on_off_request(export_id, on).kind == CommandKind::OnOff,
        on_off_map::on_off_request(export_id, on).on == Some(on),
        on_off_map::on_off_request(export_id, on).level is None,
        on_off_map::on_off_request(export_id, on).position is None,
{
}

/// The primary export is published, and no other published export has a lower endpoint id,
/// or the same one and a name that sorts before; of equals it is the first. There is one
/// at most.
pub proof fn law_primary_export(exports: Seq<Export>, i: int)
    requires
        on_off_map::is_primary(exports, i),
    ensures
        0 <= i < exports.len(),
        on_off_map::bridged(exports[i].enabled, exports[i].type_),
        forall|j: int|
            0 <= j < exports.len() && on_off_map::bridged(
                (#[trigger] exports[j]).enabled,
                exports[j].type_,
            ) ==> {
                let a = exports[i];
                let b = exports[j];
                let first = if a.endpoint_id is Some {
                    a.endpoint_id->0
                } else {
                    65535u16
                };
                let other = if b.endpoint_id is Some {
                    b.endpoint_id->0
                } else {
                    65535u16
                };
                &&& first <= other
                &&& first == other ==> !text::text_less(b.name@, a.name@)
                &&& first == other && j < i ==> text::text_less(a.name@, b.name@)
            },
        forall|j: int| #[trigger] on_off_map::is_primary(exports, j) ==> j == i,
{
    assert forall|j: int|
        0 <= j < exports.len() && on_off_map::bridged(
            (#[trigger] exports[j]).enabled,
            exports[j].type_,
        ) implies !on_off_map::ranks_before(exports[j], exports[i]) by {
        text::law_text_order(exports[i].name@, exports[j].name@);
    }
    assert forall|j: int| #[trigger] on_off_map::is_primary(exports, j) implies j == i by {
        text::law_text_order(exports[i].name@, exports[j].name@);
        assert(on_off_map::bridged(exports[j].enabled, exports[j].type_));
    }
}

/// The domain of an entity id is what stands before its first dot. Lights and input
/// booleans are switched by their own domain, covers are opened and closed, and everything
/// else is switched as a switch.
pub proof fn law_service(domain: Seq<char>, rest: Seq<char>, on: bool)
    requires
        !domain.contains('.'),
    ensures
        ({
            let (d, s) = on_off_map::service_for(domain + "."@ + rest, on);
            let turn = if on {
                "turn_on"@
            } else {
                "turn_off"@
            };
            &&& domain == "light"@ ==> d == "light"@ && s == turn
            &&& domain == "input_boolean"@ ==> d == "input_boolean"@ && s == turn
            &&& domain == "cover"@ && on ==> d == "cover"@ && s == "open_cover"@
            &&& domain == "cover"@ && !on ==> d == "cover"@ && s == "close_cover"@
            &&& domain != "light"@ && domain != "input_boolean"@ && domain != "cover"@ ==> d
                == "switch"@ && s == turn
        }),
{
    reveal_strlit(".");
    reveal_strlit("light");
    reveal_strlit("input_boolean");
    reveal_strlit("cover");
    let id = domain + "."@ + rest;
    text::law_before(id, '.');
    let r = text::before(id, '.');
    assert(id[domain.len() as int] == '.');
    if r.len() > domain.len() {
        assert(r[domain.len() as int] == id[domain.len() as int]);
        assert(r.contains('.'));
    }
    if r.len() < domain.len() {
        assert(id[r.len() as int] == domain[r.len() as int]);
        assert(domain.contains('.'));
    }
    assert(r =~= domain);
}

} // verus!
