//! The wire format in which the engine hands back the results of evaluated scripts.
//!
//! Plain JSON stands for itself. What JSON lacks is an object with a marker key: undefined
//! values, symbols, functions and back references become null, dates and URLs become their
//! payload, and marked arrays and objects become what they wrap.

use crate::failure::Failure;
use crate::json::{
    array_view, entry_is_smaller, entry_views, first_named, has_key, item_is_smaller, item_views,
    items_are_well_formed, key_at, key_below, keys_are_held_by_entries, names, object_view,
    parsed_json, position_is_unique, position_of, value_of, well_formed, Json, JsonView, NumberView,
};
use vstd::prelude::*;

verus! {

/// The object stands for something that plain JSON cannot carry.
pub open spec fn is_null_marker(entries: Seq<(Seq<char>, JsonView)>) -> bool {
    ||| has_key(entries, "__rustwright_cdp_undefined__"@)
    ||| has_key(entries, "__rustwright_cdp_symbol__"@)
    ||| has_key(entries, "__rustwright_cdp_function__"@)
    ||| has_key(entries, "__rustwright_cdp_ref__"@)
}

/// The object wraps a payload that is taken as it stands.
pub open spec fn is_payload_marker(entries: Seq<(Seq<char>, JsonView)>) -> bool {
    ||| has_key(entries, "__rustwright_cdp_date__"@)
    ||| has_key(entries, "__rustwright_cdp_url__"@)
}

/// The object wraps an array or an object that is decoded further.
pub open spec fn is_container_marker(entries: Seq<(Seq<char>, JsonView)>) -> bool {
    ||| has_key(entries, "__rustwright_cdp_array__"@)
    ||| has_key(entries, "__rustwright_cdp_object__"@)
}

/// The object holds some marker key.
pub open spec fn is_marked(entries: Seq<(Seq<char>, JsonView)>) -> bool {
    is_null_marker(entries) || is_payload_marker(entries) || is_container_marker(entries)
}

/// The payload of a date or a URL; a date marker wins.
pub open spec fn payload_of(entries: Seq<(Seq<char>, JsonView)>) -> JsonView {
    if has_key(entries, "__rustwright_cdp_date__"@) {
        value_of(entries, "__rustwright_cdp_date__"@)
    } else {
        value_of(entries, "__rustwright_cdp_url__"@)
    }
}

/// The key under which a marked container keeps what it wraps; an array marker wins.
pub open spec fn container_key(entries: Seq<(Seq<char>, JsonView)>) -> Seq<char> {
    if has_key(entries, "__rustwright_cdp_array__"@) {
        "items"@
    } else {
        "entries"@
    }
}

/// What a marked container without content stands for.
pub open spec fn empty_container(entries: Seq<(Seq<char>, JsonView)>) -> JsonView {
    if has_key(entries, "__rustwright_cdp_array__"@) {
        JsonView::Array(Seq::empty())
    } else {
        JsonView::Object(Seq::empty())
    }
}

/// The plain JSON that a wire value stands for.
pub open spec fn decoded(value: JsonView) -> JsonView
    decreases value,
{
    match value {
        JsonView::Array(items) => JsonView::Array(
            Seq::new(
                items.len(),
                |i: int| if 0 <= i < items.len() { decoded(items[i]) } else { JsonView::Null },
            ),
        ),
        JsonView::Object(entries) => if is_null_marker(entries) {
            JsonView::Null
        } else if is_payload_marker(entries) {
            payload_of(entries)
        } else if is_container_marker(entries) {
            let at = position_of(entries, container_key(entries));
            if has_key(entries, container_key(entries)) && 0 <= at < entries.len() {
                decoded(entries[at].1)
            } else {
                empty_container(entries)
            }
        } else {
            JsonView::Object(
                Seq::new(
                    entries.len(),
                    |i: int|
                        if 0 <= i < entries.len() {
                            (entries[i].0, decoded(entries[i].1))
                        } else {
                            (Seq::empty(), JsonView::Null)
                        },
                ),
            )
        },
        _ => value,
    }
}

/// Whether an entry stands under `key`.
fn holds(entries: &Vec<(String, Json)>, key: &str) -> (r: bool)
    ensures
        r == has_key(entry_views(entries@), key@),
{
    match Json::find(entries, key) {
        Some(at) => {
            proof {
                position_is_unique(entry_views(entries@), key@, at as int);
            }
            true
        },
        None => false,
    }
}

/// Takes the value under `key` out of an object that is no longer needed.
fn take(entries: Vec<(String, Json)>, key: &str) -> (r: Json)
    requires
        has_key(entry_views(entries@), key@),
    ensures
        r@ == value_of(entry_views(entries@), key@),
{
    let mut entries = entries;
    match Json::find(&entries, key) {
        Some(at) => {
            proof {
                position_is_unique(entry_views(entries@), key@, at as int);
            }
            let (_, value) = entries.swap_remove(at);
            value
        },
        None => Json::Null,
    }
}

/// An object decreases to the value under one of its keys.
proof fn value_is_smaller(entries: Seq<(Seq<char>, JsonView)>, key: Seq<char>)
    requires
        has_key(entries, key),
    ensures
        0 <= position_of(entries, key) < entries.len(),
        decreases_to!(JsonView::Object(entries) => value_of(entries, key)),
{
    entry_is_smaller(entries, position_of(entries, key));
}

/// Decodes a wire value into plain JSON.
pub fn decode_wire_value(value: Json) -> (r: Json)
    ensures
        r@ == decoded(value@),
    decreases value@,
{
    match value {
        Json::Array(items) => {
            let ghost views = item_views(items@);
            proof {
                array_view(items);
            }
            let mut out: Vec<Json> = Vec::new();
            for item in iter: items
                invariant
                    value@ == JsonView::Array(views),
                    views == item_views(iter.seq()),
                    out@.len() == iter.index(),
                    forall|i: int|
                        0 <= i < out@.len() ==> (#[trigger] out@[i])@ == decoded(views[i]),
            {
                proof {
                    item_is_smaller(views, iter.index());
                }
                out.push(decode_wire_value(item));
            }
            proof {
                array_view(out);
                assert(item_views(out@) =~= decoded(value@)->Array_0);
            }
            Json::Array(out)
        },
        Json::Object(entries) => {
            let ghost views = entry_views(entries@);
            proof {
                object_view(entries);
            }
            if holds(&entries, "__rustwright_cdp_undefined__") || holds(
                &entries,
                "__rustwright_cdp_symbol__",
            ) || holds(&entries, "__rustwright_cdp_function__") || holds(
                &entries,
                "__rustwright_cdp_ref__",
            ) {
                return Json::Null;
            }
            if holds(&entries, "__rustwright_cdp_date__") {
                return take(entries, "__rustwright_cdp_date__");
            }
            if holds(&entries, "__rustwright_cdp_url__") {
                return take(entries, "__rustwright_cdp_url__");
            }
            if holds(&entries, "__rustwright_cdp_array__") {
                if !holds(&entries, "items") {
                    let none: Vec<Json> = Vec::new();
                    proof {
                        array_view(none);
                        assert(item_views(none@) =~= Seq::empty());
                    }
                    return Json::Array(none);
                }
                let content = take(entries, "items");
                proof {
                    value_is_smaller(views, "items"@);
                }
                return decode_wire_value(content);
            }
            if holds(&entries, "__rustwright_cdp_object__") {
                if !holds(&entries, "entries") {
                    let none: Vec<(String, Json)> = Vec::new();
                    proof {
                        object_view(none);
                        assert(entry_views(none@) =~= Seq::empty());
                    }
                    return Json::Object(none);
                }
                let content = take(entries, "entries");
                proof {
                    value_is_smaller(views, "entries"@);
                }
                return decode_wire_value(content);
            }
            let mut out: Vec<(String, Json)> = Vec::new();
            for entry in iter: entries
                invariant
                    value@ == JsonView::Object(views),
                    views == entry_views(iter.seq()),
                    out@.len() == iter.index(),
                    forall|i: int|
                        0 <= i < out@.len() ==> (#[trigger] out@[i]).0@ == views[i].0
                            && out@[i].1@ == decoded(views[i].1),
            {
                proof {
                    entry_is_smaller(views, iter.index());
                }
                let (key, child) = entry;
                out.push((key, decode_wire_value(child)));
            }
            proof {
                object_view(out);
                assert(entry_views(out@) =~= decoded(value@)->Object_0);
            }
            Json::Object(out)
        },
        _ => value,
    }
}

/// No object anywhere in the value holds a marker key.
pub open spec fn is_plain(value: JsonView) -> bool
    decreases value,
{
    match value {
        JsonView::Array(items) => forall|i: int|
            0 <= i < items.len() ==> is_plain(#[trigger] items[i]),
        JsonView::Object(entries) => {
            &&& !is_marked(entries)
            &&& forall|i: int| 0 <= i < entries.len() ==> is_plain((#[trigger] entries[i]).1)
        },
        _ => true,
    }
}

/// Every payload in the value is itself plain. Payloads are taken as they stand, so this is
/// what it takes for the decoded value to be plain.
pub open spec fn has_plain_payloads(value: JsonView) -> bool
    decreases value,
{
    match value {
        JsonView::Array(items) => forall|i: int|
            0 <= i < items.len() ==> has_plain_payloads(#[trigger] items[i]),
        JsonView::Object(entries) => if is_null_marker(entries) {
            true
        } else if is_payload_marker(entries) {
            is_plain(payload_of(entries))
        } else if is_container_marker(entries) {
            let at = position_of(entries, container_key(entries));
            has_key(entries, container_key(entries)) && 0 <= at < entries.len()
                ==> has_plain_payloads(entries[at].1)
        } else {
            forall|i: int| 0 <= i < entries.len() ==> has_plain_payloads((#[trigger] entries[i]).1)
        },
        _ => true,
    }
}

/// Renaming no key, a change of the values changes no membership.
proof fn same_keys_same_members(
    a: Seq<(Seq<char>, JsonView)>,
    b: Seq<(Seq<char>, JsonView)>,
    key: Seq<char>,
)
    requires
        a.len() == b.len(),
        forall|i: int| 0 <= i < a.len() ==> (#[trigger] a[i]).0 == b[i].0,
    ensures
        has_key(a, key) == has_key(b, key),
{
    if has_key(a, key) {
        let at = position_of(a, key);
        assert(key_at(a, key, at));
        assert forall|i: int| 0 <= i < at implies (#[trigger] b[i]).0 != key by {
            assert(a[i].0 != key);
        }
        assert(key_at(b, key, at));
    }
    if has_key(b, key) {
        let at = position_of(b, key);
        assert(key_at(b, key, at));
        assert forall|i: int| 0 <= i < at implies (#[trigger] a[i]).0 != key by {
            assert(b[i].0 != key);
        }
        assert(a[at].0 == key);
        assert(key_at(a, key, at));
    }
}

/// Plain JSON stands for itself.
pub proof fn plain_values_stand_for_themselves(value: JsonView)
    requires
        is_plain(value),
    ensures
        decoded(value) == value,
    decreases value,
{
    match value {
        JsonView::Array(items) => {
            let same = value->Array_0;
            assert(forall|i: int| 0 <= i < same.len() ==> is_plain(#[trigger] same[i]));
            assert forall|i: int| 0 <= i < items.len() implies decoded(#[trigger] items[i])
                == items[i] by {
                item_is_smaller(items, i);
                plain_values_stand_for_themselves(items[i]);
            }
            assert(decoded(value)->Array_0 =~= items);
        },
        JsonView::Object(entries) => {
            assert forall|i: int| 0 <= i < entries.len() implies decoded((#[trigger] entries[i]).1)
                == entries[i].1 by {
                entry_is_smaller(entries, i);
                plain_values_stand_for_themselves(entries[i].1);
            }
            assert(decoded(value)->Object_0 =~= entries);
        },
        _ => {},
    }
}

/// Decoding leaves no marker behind exactly where the payloads of dates and URLs are plain.
pub proof fn decoding_leaves_no_marker(value: JsonView)
    ensures
        is_plain(decoded(value)) == has_plain_payloads(value),
    decreases value,
{
    match value {
        JsonView::Array(items) => {
            let same = value->Array_0;
            let out = decoded(value)->Array_0;
            assert(has_plain_payloads(value) == forall|i: int|
                0 <= i < same.len() ==> has_plain_payloads(#[trigger] same[i]));
            assert(is_plain(decoded(value)) == forall|i: int|
                0 <= i < out.len() ==> is_plain(#[trigger] out[i]));
            assert forall|i: int| 0 <= i < items.len() implies is_plain(#[trigger] out[i])
                == has_plain_payloads(same[i]) by {
                item_is_smaller(items, i);
                decoding_leaves_no_marker(items[i]);
            }
            if is_plain(decoded(value)) {
                assert forall|i: int| 0 <= i < same.len() implies has_plain_payloads(
                    #[trigger] same[i],
                ) by {
                    assert(is_plain(out[i]));
                }
            }
        },
        JsonView::Object(entries) => {
            if is_null_marker(entries) {
            } else if is_payload_marker(entries) {
            } else if is_container_marker(entries) {
                let key = container_key(entries);
                if has_key(entries, key) {
                    value_is_smaller(entries, key);
                    decoding_leaves_no_marker(value_of(entries, key));
                } else {
                    empty_containers_are_plain(entries);
                }
            } else {
                let out = decoded(value)->Object_0;
                same_keys_same_members(entries, out, "__rustwright_cdp_undefined__"@);
                same_keys_same_members(entries, out, "__rustwright_cdp_symbol__"@);
                same_keys_same_members(entries, out, "__rustwright_cdp_function__"@);
                same_keys_same_members(entries, out, "__rustwright_cdp_ref__"@);
                same_keys_same_members(entries, out, "__rustwright_cdp_date__"@);
                same_keys_same_members(entries, out, "__rustwright_cdp_url__"@);
                same_keys_same_members(entries, out, "__rustwright_cdp_array__"@);
                same_keys_same_members(entries, out, "__rustwright_cdp_object__"@);
                assert forall|i: int| 0 <= i < entries.len() implies is_plain(
                    (#[trigger] out[i]).1,
                ) == has_plain_payloads(entries[i].1) by {
                    entry_is_smaller(entries, i);
                    decoding_leaves_no_marker(entries[i].1);
                }
                if is_plain(decoded(value)) {
                    assert forall|i: int| 0 <= i < entries.len() implies has_plain_payloads(
                        (#[trigger] entries[i]).1,
                    ) by {
                        assert(is_plain(out[i].1));
                    }
                }
            }
        },
        _ => {},
    }
}

/// A container without content is plain.
proof fn empty_containers_are_plain(entries: Seq<(Seq<char>, JsonView)>)
    ensures
        is_plain(empty_container(entries)),
{
    let none = Seq::<(Seq<char>, JsonView)>::empty();
    assert forall|key: Seq<char>| !(#[trigger] has_key(none, key)) by {
        if has_key(none, key) {
            assert(key_at(none, key, position_of(none, key)));
        }
    }
}

/// Decoding twice is decoding once, wherever the payloads of dates and URLs are plain.
pub proof fn decoding_twice_is_decoding_once(value: JsonView)
    requires
        has_plain_payloads(value),
    ensures
        decoded(decoded(value)) == decoded(value),
{
    decoding_leaves_no_marker(value);
    plain_values_stand_for_themselves(decoded(value));
}

/// A decoded value keeps the ascending order of keys.
pub proof fn decoding_keeps_values_well_formed(value: JsonView)
    requires
        well_formed(value),
    ensures
        well_formed(decoded(value)),
    decreases value,
{
    match value {
        JsonView::Array(items) => {
            items_are_well_formed(items);
            let out = decoded(value)->Array_0;
            assert forall|i: int| 0 <= i < out.len() implies well_formed(#[trigger] out[i]) by {
                item_is_smaller(items, i);
                assert(well_formed(items[i]));
                decoding_keeps_values_well_formed(items[i]);
            }
        },
        JsonView::Object(entries) => {
            if is_null_marker(entries) {
            } else if is_payload_marker(entries) {
                if has_key(entries, "__rustwright_cdp_date__"@) {
                    value_is_smaller(entries, "__rustwright_cdp_date__"@);
                } else {
                    value_is_smaller(entries, "__rustwright_cdp_url__"@);
                }
            } else if is_container_marker(entries) {
                let key = container_key(entries);
                if has_key(entries, key) {
                    value_is_smaller(entries, key);
                    decoding_keeps_values_well_formed(value_of(entries, key));
                }
            } else {
                let out = decoded(value)->Object_0;
                assert forall|i: int, j: int| 0 <= i < j < out.len() implies key_below(
                    (#[trigger] out[i]).0,
                    (#[trigger] out[j]).0,
                ) by {
                    assert(key_below(entries[i].0, entries[j].0));
                }
                assert forall|i: int| 0 <= i < out.len() implies well_formed(
                    (#[trigger] out[i]).1,
                ) by {
                    entry_is_smaller(entries, i);
                    assert(well_formed(entries[i].1));
                    decoding_keeps_values_well_formed(entries[i].1);
                }
            }
        },
        _ => {},
    }
}

/// Parses the engine's answer to an evaluated script and decodes it.
pub fn decode_wire_json(text: &str) -> (r: Result<Json, Failure>)
    ensures
        match parsed_json(text@) {
            Ok(wire) => r matches Ok(json) && json@ == decoded(wire) && well_formed(json@),
            Err(error) => r == Err::<Json, Failure>(Failure::Json(error)),
        },
{
    match Json::parse(text) {
        Ok(wire) => {
            proof {
                decoding_keeps_values_well_formed(wire@);
            }
            Ok(decode_wire_value(wire))
        },
        Err(failure) => Err(failure),
    }
}

/// The entries mark a value that JSON has no form for.
pub open spec fn names_no_value(entries: Seq<(Seq<char>, JsonView)>) -> bool {
    names(entries, "__rustwright_cdp_undefined__"@) || names(entries, "__rustwright_cdp_symbol__"@)
        || names(entries, "__rustwright_cdp_function__"@) || names(
        entries,
        "__rustwright_cdp_ref__"@,
    )
}

/// The entries mark a date or a URL.
pub open spec fn names_payload(entries: Seq<(Seq<char>, JsonView)>) -> bool {
    names(entries, "__rustwright_cdp_date__"@) || names(entries, "__rustwright_cdp_url__"@)
}

/// The entries mark an array or an object.
pub open spec fn names_container(entries: Seq<(Seq<char>, JsonView)>) -> bool {
    names(entries, "__rustwright_cdp_array__"@) || names(entries, "__rustwright_cdp_object__"@)
}

/// No object anywhere in the value has the key of a marker.
pub open spec fn has_no_marker(value: JsonView) -> bool
    decreases value,
{
    match value {
        JsonView::Array(items) => forall|i: int|
            0 <= i < items.len() ==> has_no_marker(#[trigger] items[i]),
        JsonView::Object(entries) => {
            &&& !names_no_value(entries)
            &&& !names_payload(entries)
            &&& !names_container(entries)
            &&& forall|i: int| 0 <= i < entries.len() ==> has_no_marker((#[trigger] entries[i]).1)
        },
        _ => true,
    }
}

/// The markers of an object are the keys that its entries have.
proof fn markers_are_named(entries: Seq<(Seq<char>, JsonView)>)
    ensures
        is_null_marker(entries) == names_no_value(entries),
        is_payload_marker(entries) == names_payload(entries),
        is_container_marker(entries) == names_container(entries),
        forall|key: Seq<char>| has_key(entries, key) == names(entries, key),
{
    assert forall|key: Seq<char>| #[trigger] has_key(entries, key) == names(entries, key) by {
        keys_are_held_by_entries(entries, key);
    }
    keys_are_held_by_entries(entries, "__rustwright_cdp_undefined__"@);
    keys_are_held_by_entries(entries, "__rustwright_cdp_symbol__"@);
    keys_are_held_by_entries(entries, "__rustwright_cdp_function__"@);
    keys_are_held_by_entries(entries, "__rustwright_cdp_ref__"@);
    keys_are_held_by_entries(entries, "__rustwright_cdp_date__"@);
    keys_are_held_by_entries(entries, "__rustwright_cdp_url__"@);
    keys_are_held_by_entries(entries, "__rustwright_cdp_array__"@);
    keys_are_held_by_entries(entries, "__rustwright_cdp_object__"@);
}

/// The first entry with a key is the one that holds its value.
proof fn first_named_is_the_value(
    entries: Seq<(Seq<char>, JsonView)>,
    key: Seq<char>,
    at: int,
)
    requires
        first_named(entries, key, at),
    ensures
        has_key(entries, key),
        position_of(entries, key) == at,
        value_of(entries, key) == entries[at].1,
{
    assert(key_at(entries, key, at));
    position_is_unique(entries, key, at);
}

/// An array decodes to an array of the same length, whose items are the items decoded each on
/// its own, in whatever form they came.
pub proof fn arrays_are_decoded_item_by_item(
    array: Json,
    decoded_array: Json,
    i: int,
    item: Json,
    decoded_item: Json,
)
    requires
        call_ensures(decode_wire_value, (array,), decoded_array),
        call_ensures(decode_wire_value, (item,), decoded_item),
        array@ is Array,
        0 <= i < array@->Array_0.len(),
        item@ == array@->Array_0[i],
    ensures
        decoded_array@ is Array,
        decoded_array@->Array_0.len() == array@->Array_0.len(),
        decoded_array@->Array_0[i] == decoded_item@,
{
}

/// An object without a marker decodes to an object with the same keys in the same order,
/// whose values are the values decoded each on its own.
pub proof fn objects_are_decoded_entry_by_entry(
    object: Json,
    decoded_object: Json,
    i: int,
    value: Json,
    decoded_value: Json,
)
    requires
        call_ensures(decode_wire_value, (object,), decoded_object),
        call_ensures(decode_wire_value, (value,), decoded_value),
        object@ is Object,
        !names_no_value(object@->Object_0),
        !names_payload(object@->Object_0),
        !names_container(object@->Object_0),
        0 <= i < object@->Object_0.len(),
        value@ == object@->Object_0[i].1,
    ensures
        decoded_object@ is Object,
        decoded_object@->Object_0.len() == object@->Object_0.len(),
        decoded_object@->Object_0[i] == (object@->Object_0[i].0, decoded_value@),
{
    markers_are_named(object@->Object_0);
}

/// Null, booleans, numbers, texts, empty arrays and empty objects decode to themselves.
pub proof fn simple_values_stand_for_themselves(value: Json, plain: Json)
    requires
        call_ensures(decode_wire_value, (value,), plain),
        value@ is Array ==> value@->Array_0.len() == 0,
        value@ is Object ==> value@->Object_0.len() == 0,
    ensures
        plain@ == value@,
{
    match value@ {
        JsonView::Array(items) => {
            assert(plain@->Array_0 =~= items);
        },
        JsonView::Object(entries) => {
            markers_are_named(entries);
            assert(plain@->Object_0 =~= entries);
        },
        _ => {},
    }
}

/// Undefined values, symbols, functions and back references decode to null, whatever else
/// their object holds.
pub proof fn values_without_a_form_become_null(object: Json, plain: Json)
    requires
        call_ensures(decode_wire_value, (object,), plain),
        object@ is Object,
        names_no_value(object@->Object_0),
    ensures
        plain@ == JsonView::Null,
{
    markers_are_named(object@->Object_0);
}

/// A date decodes to what stands under its marker, as it stands.
pub proof fn dates_become_their_payload(object: Json, at: int, plain: Json)
    requires
        call_ensures(decode_wire_value, (object,), plain),
        object@ is Object,
        !names_no_value(object@->Object_0),
        first_named(object@->Object_0, "__rustwright_cdp_date__"@, at),
    ensures
        plain@ == object@->Object_0[at].1,
{
    let entries = object@->Object_0;
    markers_are_named(entries);
    first_named_is_the_value(entries, "__rustwright_cdp_date__"@, at);
    assert(names(entries, "__rustwright_cdp_date__"@));
}

/// A URL decodes to what stands under its marker, as it stands.
pub proof fn urls_become_their_payload(object: Json, at: int, plain: Json)
    requires
        call_ensures(decode_wire_value, (object,), plain),
        object@ is Object,
        !names_no_value(object@->Object_0),
        !names(object@->Object_0, "__rustwright_cdp_date__"@),
        first_named(object@->Object_0, "__rustwright_cdp_url__"@, at),
    ensures
        plain@ == object@->Object_0[at].1,
{
    let entries = object@->Object_0;
    markers_are_named(entries);
    first_named_is_the_value(entries, "__rustwright_cdp_url__"@, at);
    assert(names(entries, "__rustwright_cdp_url__"@));
}

/// A marked array decodes to what its items decode to, and to no items where it has none.
pub proof fn marked_arrays_are_unwrapped(
    object: Json,
    plain: Json,
    at: int,
    content: Json,
    decoded_content: Json,
)
    requires
        call_ensures(decode_wire_value, (object,), plain),
        call_ensures(decode_wire_value, (content,), decoded_content),
        object@ is Object,
        !names_no_value(object@->Object_0),
        !names_payload(object@->Object_0),
        names(object@->Object_0, "__rustwright_cdp_array__"@),
    ensures
        first_named(object@->Object_0, "items"@, at) && content@ == object@->Object_0[at].1
            ==> plain@ == decoded_content@,
        !names(object@->Object_0, "items"@) ==> plain@ is Array && plain@->Array_0.len() == 0,
{
    let entries = object@->Object_0;
    markers_are_named(entries);
    if first_named(entries, "items"@, at) {
        first_named_is_the_value(entries, "items"@, at);
    }
}

/// A marked object decodes to what its entries decode to, and to no entries where it has none.
pub proof fn marked_objects_are_unwrapped(
    object: Json,
    plain: Json,
    at: int,
    content: Json,
    decoded_content: Json,
)
    requires
        call_ensures(decode_wire_value, (object,), plain),
        call_ensures(decode_wire_value, (content,), decoded_content),
        object@ is Object,
        !names_no_value(object@->Object_0),
        !names_payload(object@->Object_0),
        !names(object@->Object_0, "__rustwright_cdp_array__"@),
        names(object@->Object_0, "__rustwright_cdp_object__"@),
    ensures
        first_named(object@->Object_0, "entries"@, at) && content@ == object@->Object_0[at].1
            ==> plain@ == decoded_content@,
        !names(object@->Object_0, "entries"@) ==> plain@ is Object && plain@->Object_0.len() == 0,
{
    let entries = object@->Object_0;
    markers_are_named(entries);
    if first_named(entries, "entries"@, at) {
        first_named_is_the_value(entries, "entries"@, at);
    }
}

/// The wire form of a plain value in which every array and every object is marked.
pub open spec fn wired(value: JsonView) -> JsonView
    decreases value,
{
    let mark = JsonView::Number(NumberView::PosInt(1));
    match value {
        JsonView::Array(items) => JsonView::Object(
            seq![
                ("__rustwright_cdp_array__"@, mark),
                (
                    "items"@,
                    JsonView::Array(
                        Seq::new(
                            items.len(),
                            |i: int|
                                if 0 <= i < items.len() {
                                    wired(items[i])
                                } else {
                                    JsonView::Null
                                },
                        ),
                    ),
                ),
            ],
        ),
        JsonView::Object(entries) => JsonView::Object(
            seq![
                ("__rustwright_cdp_object__"@, mark),
                (
                    "entries"@,
                    JsonView::Object(
                        Seq::new(
                            entries.len(),
                            |i: int|
                                if 0 <= i < entries.len() {
                                    (entries[i].0, wired(entries[i].1))
                                } else {
                                    (Seq::empty(), JsonView::Null)
                                },
                        ),
                    ),
                ),
            ],
        ),
        _ => value,
    }
}

/// The keys of the markers and of what they wrap are all different.
proof fn marker_keys_differ()
    ensures
        "__rustwright_cdp_array__"@ != "items"@,
        "__rustwright_cdp_object__"@ != "entries"@,
        "__rustwright_cdp_array__"@ != "__rustwright_cdp_object__"@,
        forall|key: Seq<char>|
            #![trigger is_other_marker(key)]
            is_other_marker(key) ==> key != "__rustwright_cdp_array__"@ && key
                != "__rustwright_cdp_object__"@ && key != "items"@ && key != "entries"@,
{
    reveal_strlit("__rustwright_cdp_undefined__");
    reveal_strlit("__rustwright_cdp_symbol__");
    reveal_strlit("__rustwright_cdp_function__");
    reveal_strlit("__rustwright_cdp_ref__");
    reveal_strlit("__rustwright_cdp_date__");
    reveal_strlit("__rustwright_cdp_url__");
    reveal_strlit("__rustwright_cdp_array__");
    reveal_strlit("__rustwright_cdp_object__");
    reveal_strlit("items");
    reveal_strlit("entries");
    assert("__rustwright_cdp_undefined__"@[0] == '_' && "__rustwright_cdp_undefined__"@[17] == 'u');
    assert("__rustwright_cdp_symbol__"@[0] == '_' && "__rustwright_cdp_symbol__"@[17] == 's');
    assert("__rustwright_cdp_function__"@[0] == '_' && "__rustwright_cdp_function__"@[17] == 'f');
    assert("__rustwright_cdp_ref__"@[0] == '_' && "__rustwright_cdp_ref__"@[17] == 'r');
    assert("__rustwright_cdp_date__"@[0] == '_' && "__rustwright_cdp_date__"@[17] == 'd');
    assert("__rustwright_cdp_url__"@[0] == '_' && "__rustwright_cdp_url__"@[17] == 'u');
    assert("__rustwright_cdp_array__"@[0] == '_' && "__rustwright_cdp_array__"@[17] == 'a');
    assert("__rustwright_cdp_object__"@[0] == '_' && "__rustwright_cdp_object__"@[17] == 'o');
    assert("items"@[0] == 'i' && "entries"@[0] == 'e');
}

/// The key of a marker that wraps no container.
spec fn is_other_marker(key: Seq<char>) -> bool {
    ||| key == "__rustwright_cdp_undefined__"@
    ||| key == "__rustwright_cdp_symbol__"@
    ||| key == "__rustwright_cdp_function__"@
    ||| key == "__rustwright_cdp_ref__"@
    ||| key == "__rustwright_cdp_date__"@
    ||| key == "__rustwright_cdp_url__"@
}

/// A container of two entries is unwrapped.
proof fn containers_are_unwrapped(entries: Seq<(Seq<char>, JsonView)>)
    requires
        entries.len() == 2,
        entries[0].0 == "__rustwright_cdp_array__"@ && entries[1].0 == "items"@ || entries[0].0
            == "__rustwright_cdp_object__"@ && entries[1].0 == "entries"@,
    ensures
        decoded(JsonView::Object(entries)) == decoded(entries[1].1),
{
    marker_keys_differ();
    markers_are_named(entries);
    assert forall|key: Seq<char>| is_other_marker(key) implies !names(entries, key) by {
        if names(entries, key) {
            let i = choose|i: int| 0 <= i < entries.len() && (#[trigger] entries[i]).0 == key;
            assert(i == 0 || i == 1);
        }
    }
    assert(is_other_marker("__rustwright_cdp_undefined__"@));
    assert(is_other_marker("__rustwright_cdp_symbol__"@));
    assert(is_other_marker("__rustwright_cdp_function__"@));
    assert(is_other_marker("__rustwright_cdp_ref__"@));
    assert(is_other_marker("__rustwright_cdp_date__"@));
    assert(is_other_marker("__rustwright_cdp_url__"@));
    assert(names(entries, entries[0].0));
    if entries[0].0 == "__rustwright_cdp_object__"@ {
        if names(entries, "__rustwright_cdp_array__"@) {
            let i = choose|i: int|
                0 <= i < entries.len() && (#[trigger] entries[i]).0 == "__rustwright_cdp_array__"@;
            reveal_strlit("__rustwright_cdp_array__");
            reveal_strlit("entries");
            assert(i == 0 || i == 1);
        }
    }
    assert(first_named(entries, entries[1].0, 1));
    first_named_is_the_value(entries, entries[1].0, 1);
    assert(container_key(entries) == entries[1].0);
    assert(is_container_marker(entries));
    assert(!is_null_marker(entries) && !is_payload_marker(entries));
}

/// Decoding undoes the wire form.
proof fn wire_forms_are_decoded(value: JsonView)
    requires
        has_no_marker(value),
    ensures
        decoded(wired(value)) == value,
    decreases value,
{
    match value {
        JsonView::Array(items) => {
            let same = value->Array_0;
            assert(forall|i: int| 0 <= i < same.len() ==> has_no_marker(#[trigger] same[i]));
            let outer = wired(value)->Object_0;
            let content = outer[1].1;
            containers_are_unwrapped(outer);
            assert forall|i: int| 0 <= i < items.len() implies decoded(content->Array_0[i])
                == items[i] by {
                item_is_smaller(items, i);
                assert(has_no_marker(same[i]));
                wire_forms_are_decoded(items[i]);
            }
            assert(decoded(content)->Array_0 =~= items);
        },
        JsonView::Object(entries) => {
            let outer = wired(value)->Object_0;
            let content = outer[1].1;
            let inner = content->Object_0;
            containers_are_unwrapped(outer);
            markers_are_named(entries);
            markers_are_named(inner);
            assert forall|key: Seq<char>| #[trigger] names(inner, key) == names(entries, key) by {
                same_keys_same_members(entries, inner, key);
                keys_are_held_by_entries(entries, key);
                keys_are_held_by_entries(inner, key);
            }
            assert forall|i: int| 0 <= i < entries.len() implies decoded(inner[i].1)
                == entries[i].1 by {
                entry_is_smaller(entries, i);
                assert(has_no_marker(entries[i].1));
                wire_forms_are_decoded(entries[i].1);
            }
            assert(decoded(content)->Object_0 =~= entries);
        },
        _ => {},
    }
}

/// A value without markers is plain.
proof fn values_without_marker_are_plain(value: JsonView)
    requires
        has_no_marker(value),
    ensures
        is_plain(value),
    decreases value,
{
    match value {
        JsonView::Array(items) => {
            let same = value->Array_0;
            assert(forall|i: int| 0 <= i < same.len() ==> has_no_marker(#[trigger] same[i]));
            assert forall|i: int| 0 <= i < items.len() implies is_plain(#[trigger] items[i]) by {
                item_is_smaller(items, i);
                assert(has_no_marker(same[i]));
                values_without_marker_are_plain(items[i]);
            }
        },
        JsonView::Object(entries) => {
            markers_are_named(entries);
            assert forall|i: int| 0 <= i < entries.len() implies is_plain(
                (#[trigger] entries[i]).1,
            ) by {
                entry_is_smaller(entries, i);
                values_without_marker_are_plain(entries[i].1);
            }
        },
        _ => {},
    }
}

/// A plain value comes back from the wire as it was, sent plainly or with every array and
/// object in it marked.
pub proof fn plain_values_come_back(value: JsonView, sent: Json, received: Json)
    requires
        has_no_marker(value),
        sent@ == value || sent@ == wired(value),
        call_ensures(decode_wire_value, (sent,), received),
    ensures
        received@ == value,
{
    wire_forms_are_decoded(value);
    values_without_marker_are_plain(value);
    plain_values_stand_for_themselves(value);
}

/// Decoding a text is parsing it and decoding the value.
pub proof fn texts_are_parsed_and_decoded(
    text: &str,
    parsed: Result<Json, Failure>,
    wire: Json,
    plain: Json,
    r: Result<Json, Failure>,
)
    requires
        call_ensures(Json::parse, (text,), parsed),
        call_ensures(decode_wire_value, (wire,), plain),
        call_ensures(decode_wire_json, (text,), r),
    ensures
        r is Ok == parsed is Ok,
        parsed is Ok && parsed->Ok_0@ == wire@ ==> r->Ok_0@ == plain@,
        parsed is Err ==> r->Err_0 == parsed->Err_0,
{
}

} // verus!
