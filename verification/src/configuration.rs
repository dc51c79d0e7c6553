//! The settings of an account's connection that people may see. A plugin names the fields; the host
//! shows no other, and none whose schema could carry a secret or lead elsewhere.

use vstd::prelude::*;

use crate::account::LoadedCredential;
use crate::credential_form::BACKTRACK_LIMIT;
use crate::fault::{
    admin, conflict, refused, AdminError, AdminReason, ProviderAdminError, ProviderAdminErrorKind,
};
use crate::json::{
    accepts, compiles, copy_members, find_member, fits, lemma_items_view, lemma_member_names,
    lemma_members_view, member, member_views, members_view, object_of, put, schema_accepts,
    schema_compiles, within, Json, JsonView,
};
use crate::manifest::{has_credential_operation, CredentialOperation};
use crate::record::{field_names, named};
use crate::text::{
    all_distinct, byte_len, contains_control, has_control, holds, length_in_bytes, same, texts,
};

verus! {

/// The most fields that may be shown.
pub const MAX_PUBLIC_FIELDS: usize = 64;

/// The most bytes of the name of a field.
pub const MAX_FIELD_BYTES: usize = 128;

/// The most bytes of the settings of an account.
pub const MAX_CONFIGURATION_BYTES: usize = 65536;

/// The words of a schema that lead elsewhere or make it depend on what it checks.
pub open spec fn indirect_words() -> Seq<Seq<char>> {
    seq![
        "$ref"@,
        "$dynamicRef"@,
        "$recursiveRef"@,
        "allOf"@,
        "anyOf"@,
        "oneOf"@,
        "not"@,
        "if"@,
        "then"@,
        "else"@,
        "dependentSchemas"@,
        "dependencies"@,
        "patternProperties"@,
        "unevaluatedProperties"@,
        "unevaluatedItems"@,
        "contentSchema"@,
    ]
}

fn indirect() -> (words: Vec<&'static str>)
    ensures
        field_names(words@) == indirect_words(),
{
    let words: Vec<&'static str> =
        vec![
        "$ref",
        "$dynamicRef",
        "$recursiveRef",
        "allOf",
        "anyOf",
        "oneOf",
        "not",
        "if",
        "then",
        "else",
        "dependentSchemas",
        "dependencies",
        "patternProperties",
        "unevaluatedProperties",
        "unevaluatedItems",
        "contentSchema",
    ];
    assert(field_names(words@) =~= indirect_words());
    words
}

/// Somewhere in a document stands one of several names.
pub open spec fn mentions(document: JsonView, words: Seq<Seq<char>>) -> bool
    decreases document,
{
    match document {
        JsonView::Object(members) => exists|name: Seq<char>| #[trigger]
            members.contains_key(name) && (words.contains(name) || mentions(members[name], words)),
        JsonView::Array(items) => exists|i: int|
            0 <= i < items.len() && mentions(#[trigger] items[i], words),
        _ => false,
    }
}

/// An object that marks a value as secret.
pub open spec fn is_marked(document: JsonView) -> bool {
    member(document, "writeOnly"@) == Some(JsonView::Bool(true)) || member(document, "format"@)
        == Some(JsonView::Text("password"@))
}

/// Somewhere in a document a value is marked as secret.
pub open spec fn mentions_secret(document: JsonView) -> bool
    decreases document,
{
    match document {
        JsonView::Object(members) => is_marked(document) || exists|name: Seq<char>| #[trigger]
            members.contains_key(name) && mentions_secret(members[name]),
        JsonView::Array(items) => exists|i: int|
            0 <= i < items.len() && mentions_secret(#[trigger] items[i]),
        _ => false,
    }
}


/// Whether somewhere in a document stands one of several names.
pub fn contains_key_recursive(value: &Json, words: &Vec<&'static str>) -> (r: bool)
    ensures
        r == mentions(value@, field_names(words@)),
    decreases value,
{
    match value {
        Json::Object(members) => {
            let ghost views = member_views(members@);
            proof {
                lemma_members_view(members@);
            }
            for i in 0..members.len()
                invariant
                    *value == Json::Object(*members),
                    views == member_views(members@),
                    value@ == JsonView::Object(object_of(views)),
                    forall|j: int|
                        0 <= j < i ==> !field_names(words@).contains((#[trigger] members@[j]).0@)
                            && !mentions(object_of(views)[members@[j].0@], field_names(words@)),
            {
                let name = &members[i].0;
                proof {
                    assert(views[i as int].0 == name@);
                    lemma_member_names(views, name@);
                    assert(value@->Object_0.contains_key(name@));
                }
                if named(words, name.as_str()) {
                    return true;
                }
                match find_member(members, name.as_str()) {
                    Some(k) => {
                        assert(decreases_to!(*value => value->Object_0));
                        assert(decreases_to!(members@ => members@[k as int]));
                        assert(decreases_to!(members@[k as int] => members@[k as int].1));
                        if contains_key_recursive(&members[k].1, words) {
                            return true;
                        }
                    },
                    None => {},
                }
            }
            proof {
                assert forall|name: Seq<char>| #[trigger]
                    value@->Object_0.contains_key(name) implies !field_names(words@).contains(name)
                    && !mentions(value@->Object_0[name], field_names(words@)) by {
                    lemma_member_names(views, name);
                    let k = choose|k: int| 0 <= k < views.len() && (#[trigger] views[k]).0 == name;
                    assert(members@[k].0@ == name);
                }
            }
            false
        },
        Json::Array(items) => {
            proof {
                lemma_items_view(items@);
            }
            for i in 0..items.len()
                invariant
                    *value == Json::Array(*items),
                    value@->Array_0.len() == items@.len(),
                    forall|j: int| 0 <= j < items@.len() ==> #[trigger] value@->Array_0[j] == items@[j]@,
                    forall|j: int|
                        0 <= j < i ==> !mentions(#[trigger] value@->Array_0[j], field_names(words@)),
            {
                assert(decreases_to!(*value => value->Array_0));
                assert(decreases_to!(items@ => items@[i as int]));
                if contains_key_recursive(&items[i], words) {
                    assert(mentions(value@->Array_0[i as int], field_names(words@)));
                    return true;
                }
            }
            false
        },
        _ => false,
    }
}

fn holds_text(value: &Json, name: &str, text: &str) -> (r: bool)
    ensures
        r == (member(value@, name@) == Some(JsonView::Text(text@))),
{
    match value.get(name) {
        Some(found) => found.is_text(text),
        None => false,
    }
}

fn holds_true(value: &Json, name: &str) -> (r: bool)
    ensures
        r == (member(value@, name@) == Some(JsonView::Bool(true))),
{
    match value.get(name) {
        Some(found) => found.is_bool(true),
        None => false,
    }
}

/// Whether somewhere in a document a value is marked as secret.
pub fn contains_sensitive_marker_recursive(value: &Json) -> (r: bool)
    ensures
        r == mentions_secret(value@),
    decreases value,
{
    match value {
        Json::Object(members) => {
            if holds_true(value, "writeOnly") || holds_text(value, "format", "password") {
                return true;
            }
            let ghost views = member_views(members@);
            proof {
                lemma_members_view(members@);
            }
            for i in 0..members.len()
                invariant
                    *value == Json::Object(*members),
                    views == member_views(members@),
                    value@ == JsonView::Object(object_of(views)),
                    !is_marked(value@),
                    forall|j: int|
                        0 <= j < i ==> !mentions_secret(
                            object_of(views)[(#[trigger] members@[j]).0@],
                        ),
            {
                let name = &members[i].0;
                proof {
                    assert(views[i as int].0 == name@);
                    lemma_member_names(views, name@);
                    assert(value@->Object_0.contains_key(name@));
                }
                match find_member(members, name.as_str()) {
                    Some(k) => {
                        assert(decreases_to!(*value => value->Object_0));
                        assert(decreases_to!(members@ => members@[k as int]));
                        assert(decreases_to!(members@[k as int] => members@[k as int].1));
                        if contains_sensitive_marker_recursive(&members[k].1) {
                            return true;
                        }
                    },
                    None => {},
                }
            }
            proof {
                assert forall|name: Seq<char>| #[trigger]
                    value@->Object_0.contains_key(name) implies !mentions_secret(
                    value@->Object_0[name],
                ) by {
                    lemma_member_names(views, name);
                    let k = choose|k: int| 0 <= k < views.len() && (#[trigger] views[k]).0 == name;
                    assert(members@[k].0@ == name);
                }
            }
            false
        },
        Json::Array(items) => {
            proof {
                lemma_items_view(items@);
            }
            for i in 0..items.len()
                invariant
                    *value == Json::Array(*items),
                    value@->Array_0.len() == items@.len(),
                    forall|j: int| 0 <= j < items@.len() ==> #[trigger] value@->Array_0[j] == items@[j]@,
                    forall|j: int| 0 <= j < i ==> !mentions_secret(#[trigger] value@->Array_0[j]),
            {
                assert(decreases_to!(*value => value->Array_0));
                assert(decreases_to!(items@ => items@[i as int]));
                if contains_sensitive_marker_recursive(&items[i]) {
                    assert(mentions_secret(value@->Array_0[i as int]));
                    return true;
                }
            }
            false
        },
        _ => false,
    }
}

/// The types of single values.
pub open spec fn is_scalar(kind: Option<JsonView>) -> bool {
    kind == Some(JsonView::Text("string"@)) || kind == Some(JsonView::Text("number"@)) || kind
        == Some(JsonView::Text("integer"@)) || kind == Some(JsonView::Text("boolean"@))
}

/// A schema is not of a value that is written or read one way only, or is a password.
pub open spec fn is_open(schema: JsonView) -> bool {
    &&& member(schema, "writeOnly"@) != Some(JsonView::Bool(true))
    &&& member(schema, "readOnly"@) != Some(JsonView::Bool(true))
    &&& member(schema, "format"@) != Some(JsonView::Text("password"@))
}

/// The schema of a field that may be shown: a single value, spelled out in place, without a secret.
pub open spec fn is_public_property(schema: JsonView) -> bool {
    &&& schema is Object
    &&& is_scalar(member(schema, "type"@))
    &&& is_open(schema)
    &&& !mentions(schema, indirect_words())
    &&& !mentions_secret(schema)
}

/// The schema of settings of which some fields may be shown: an object, spelled out in place.
pub open spec fn is_configuration_root(schema: JsonView) -> bool {
    &&& schema matches JsonView::Object(members) && forall|word: Seq<char>| #[trigger]
        indirect_words().contains(word) ==> !members.contains_key(word)
    &&& member(schema, "type"@) == Some(JsonView::Text("object"@))
    &&& is_open(schema)
}

fn open_schema(schema: &Json) -> (r: bool)
    ensures
        r == is_open(schema@),
{
    !holds_true(schema, "writeOnly") && !holds_true(schema, "readOnly") && !holds_text(
        schema,
        "format",
        "password",
    )
}

pub fn safe_public_property(schema: &Json) -> (r: bool)
    ensures
        r == is_public_property(schema@),
{
    match schema {
        Json::Object(_) => {},
        _ => return false,
    }
    let scalar = holds_text(schema, "type", "string") || holds_text(schema, "type", "number")
        || holds_text(schema, "type", "integer") || holds_text(schema, "type", "boolean");
    if !scalar || !open_schema(schema) {
        return false;
    }
    let words = indirect();
    !contains_key_recursive(schema, &words) && !contains_sensitive_marker_recursive(schema)
}

pub fn safe_configuration_root(schema: &Json) -> (r: bool)
    ensures
        r == is_configuration_root(schema@),
{
    let members = match schema {
        Json::Object(members) => members,
        _ => return false,
    };
    if !holds_text(schema, "type", "object") || !open_schema(schema) {
        return false;
    }
    let words = indirect();
    for i in 0..words.len()
        invariant
            *schema == Json::Object(*members),
            field_names(words@) == indirect_words(),
            forall|j: int|
                0 <= j < i ==> !members_view(members@).contains_key(#[trigger] indirect_words()[j]),
    {
        assert(words@[i as int]@ == indirect_words()[i as int]);
        if find_member(members, words[i]).is_some() {
            assert(indirect_words().contains(indirect_words()[i as int]));
            return false;
        }
    }
    proof {
        assert forall|word: Seq<char>| #[trigger] indirect_words().contains(word) implies
            !members_view(members@).contains_key(word) by {
            let j = choose|j: int| 0 <= j < indirect_words().len() && indirect_words()[j] == word;
            assert(!members_view(members@).contains_key(indirect_words()[j]));
        }
    }
    true
}

/// The fields of an account's settings that a plugin wants shown.
pub struct AccountConfigurationDescriptor {
    pub public_fields: Vec<String>,
}

/// The fields of an account's settings that are shown, and the schema of what is shown.
pub struct PreparedAccountConfiguration {
    pub public_fields: Vec<String>,
    pub schema: Json,
}

/// The name of a field.
pub open spec fn is_field_name(name: Seq<char>) -> bool {
    0 < byte_len(name) <= MAX_FIELD_BYTES && !has_control(name)
}

/// Fields that can be told apart.
pub open spec fn are_fields(fields: Seq<String>) -> bool {
    &&& texts(fields).no_duplicates()
    &&& forall|i: int| 0 <= i < fields.len() ==> is_field_name((#[trigger] fields[i])@)
}

/// Every field has a schema under which it may be shown.
pub open spec fn are_public(
    fields: Seq<String>,
    properties: Map<Seq<char>, JsonView>,
) -> bool {
    forall|i: int|
        0 <= i < fields.len() ==> properties.contains_key((#[trigger] fields[i])@)
            && is_public_property(properties[fields[i]@])
}

/// The schemas of some fields.
pub open spec fn projected(
    fields: Seq<String>,
    properties: Map<Seq<char>, JsonView>,
) -> Map<Seq<char>, JsonView>
    decreases fields.len(),
{
    if fields.len() == 0 {
        Map::empty()
    } else {
        projected(fields.drop_last(), properties).insert(
            fields.last()@,
            properties[fields.last()@],
        )
    }
}

/// The schema of what is shown: the given fields and no others.
pub open spec fn shown_schema(
    fields: Seq<String>,
    properties: Map<Seq<char>, JsonView>,
) -> JsonView {
    JsonView::Object(
        Map::empty().insert("type"@, JsonView::Text("object"@)).insert(
            "properties"@,
            JsonView::Object(projected(fields, properties)),
        ).insert("additionalProperties"@, JsonView::Bool(false)),
    )
}

/// The schemas of the fields that a schema describes.
pub open spec fn properties_of(schema: JsonView) -> Option<Map<Seq<char>, JsonView>> {
    match member(schema, "properties"@) {
        Some(JsonView::Object(properties)) => Some(properties),
        _ => None,
    }
}

/// What is wrong with the fields that a plugin wants shown.
pub open spec fn configuration_fault(
    fields: Seq<String>,
    operations: Seq<CredentialOperation>,
    rotate_schema: Option<JsonView>,
) -> Option<AdminReason> {
    if !operations.contains(CredentialOperation::Rotate) || fields.len() == 0 || fields.len()
        > MAX_PUBLIC_FIELDS {
        Some(AdminReason::ConfigurationOperation)
    } else if !are_fields(fields) {
        Some(AdminReason::ConfigurationFields)
    } else {
        match rotate_schema {
            Some(schema) if is_configuration_root(schema) => match properties_of(schema) {
                Some(properties) => if !are_public(fields, properties) {
                    Some(AdminReason::ConfigurationFieldUnsafe)
                } else if !schema_compiles(
                    shown_schema(fields, properties),
                    BACKTRACK_LIMIT as nat,
                ) {
                    Some(AdminReason::ConfigurationFieldSchema)
                } else {
                    None
                },
                None => Some(AdminReason::ConfigurationSchemaMissing),
            },
            _ => Some(AdminReason::ConfigurationSchemaUnsafe),
        }
    }
}

fn valid_fields(fields: &Vec<String>) -> (r: bool)
    ensures
        r == are_fields(fields@),
{
    if !all_distinct(fields) {
        return false;
    }
    for i in 0..fields.len()
        invariant
            forall|j: int| 0 <= j < i ==> is_field_name((#[trigger] fields@[j])@),
    {
        let bytes = length_in_bytes(fields[i].as_str());
        if bytes == 0 || bytes > MAX_FIELD_BYTES || contains_control(fields[i].as_str()) {
            assert(!is_field_name(fields@[i as int]@));
            return false;
        }
    }
    true
}

/// The schemas of the fields that are to be shown, as long as they may be.
fn project(fields: &Vec<String>, properties: &Vec<(String, Json)>) -> (result: Option<
    Vec<(String, Json)>,
>)
    ensures
        result is Some == are_public(fields@, members_view(properties@)),
        result matches Some(members) ==> members_view(members@) == projected(
            fields@,
            members_view(properties@),
        ),
{
    let mut members: Vec<(String, Json)> = Vec::new();
    assert(fields@.take(0) =~= Seq::<String>::empty());
    for i in 0..fields.len()
        invariant
            members_view(members@) == projected(fields@.take(i as int), members_view(properties@)),
            forall|j: int|
                0 <= j < i ==> members_view(properties@).contains_key((#[trigger] fields@[j])@)
                    && is_public_property(members_view(properties@)[fields@[j]@]),
    {
        proof {
            assert(fields@.take(i + 1).drop_last() =~= fields@.take(i as int));
            assert(fields@.take(i + 1).last() == fields@[i as int]);
        }
        match find_member(properties, fields[i].as_str()) {
            Some(k) => {
                if !safe_public_property(&properties[k].1) {
                    assert(!is_public_property(members_view(properties@)[fields@[i as int]@]));
                    return None;
                }
                put(&mut members, fields[i].as_str(), properties[k].1.copy());
            },
            None => {
                assert(!members_view(properties@).contains_key(fields@[i as int]@));
                return None;
            },
        }
    }
    assert(fields@.take(fields@.len() as int) =~= fields@);
    Some(members)
}

/// What a schema says, where there is one.
pub open spec fn schema_view(schema: Option<&Json>) -> Option<JsonView> {
    match schema {
        Some(schema) => Some(schema@),
        None => None,
    }
}

impl PreparedAccountConfiguration {
    pub fn prepare(
        descriptor: Option<AccountConfigurationDescriptor>,
        operations: &Vec<CredentialOperation>,
        rotate_schema: Option<&Json>,
    ) -> (result: Result<Option<Self>, AdminError>)
        ensures
            match descriptor {
                None => result matches Ok(prepared) && prepared is None,
                Some(descriptor) => match configuration_fault(
                    descriptor.public_fields@,
                    operations@,
                    schema_view(rotate_schema),
                ) {
                    Some(reason) => result matches Err(error) && error == refused(reason),
                    None => result matches Ok(Some(prepared)) && prepared.public_fields
                        == descriptor.public_fields && prepared.schema@ == shown_schema(
                        descriptor.public_fields@,
                        properties_of(rotate_schema->0@)->0,
                    ),
                },
            },
    {
        let descriptor = match descriptor {
            Some(descriptor) => descriptor,
            None => return Ok(None),
        };
        let fields = descriptor.public_fields;
        if !has_credential_operation(operations, CredentialOperation::Rotate) || fields.len() == 0
            || fields.len() > MAX_PUBLIC_FIELDS {
            return Err(AdminError::invalid(AdminReason::ConfigurationOperation));
        }
        if !valid_fields(&fields) {
            return Err(AdminError::invalid(AdminReason::ConfigurationFields));
        }
        let root = match rotate_schema {
            Some(schema) => schema,
            None => return Err(AdminError::invalid(AdminReason::ConfigurationSchemaUnsafe)),
        };
        if !safe_configuration_root(root) {
            return Err(AdminError::invalid(AdminReason::ConfigurationSchemaUnsafe));
        }
        let properties = match root.get("properties") {
            Some(Json::Object(properties)) => properties,
            _ => return Err(AdminError::invalid(AdminReason::ConfigurationSchemaMissing)),
        };
        let shown = match project(&fields, properties) {
            Some(shown) => shown,
            None => return Err(AdminError::invalid(AdminReason::ConfigurationFieldUnsafe)),
        };
        let mut members: Vec<(String, Json)> = Vec::new();
        put(&mut members, "type", Json::text("object"));
        put(&mut members, "properties", Json::Object(shown));
        put(&mut members, "additionalProperties", Json::Bool(false));
        let schema = Json::Object(members);
        if !compiles(&schema, BACKTRACK_LIMIT) {
            return Err(AdminError::invalid(AdminReason::ConfigurationFieldSchema));
        }
        Ok(Some(PreparedAccountConfiguration { public_fields: fields, schema }))
    }

    /// Settings that may be shown.
    pub open spec fn may_show(&self, values: Map<Seq<char>, JsonView>) -> bool {
        &&& forall|name: Seq<char>| #[trigger]
            values.contains_key(name) ==> texts(self.public_fields@).contains(name)
        &&& fits(JsonView::Object(values), MAX_CONFIGURATION_BYTES as nat)
        &&& schema_compiles(self.schema@, BACKTRACK_LIMIT as nat)
        &&& schema_accepts(self.schema@, BACKTRACK_LIMIT as nat, JsonView::Object(values))
    }

    pub fn validate(&self, values: &Vec<(String, Json)>) -> (r: bool)
        ensures
            r == self.may_show(members_view(values@)),
    {
        let ghost views = member_views(values@);
        proof {
            lemma_members_view(values@);
        }
        for i in 0..values.len()
            invariant
                views == member_views(values@),
                members_view(values@) == object_of(views),
                forall|j: int|
                    0 <= j < i ==> texts(self.public_fields@).contains((#[trigger] values@[j]).0@),
        {
            if !holds(&self.public_fields, values[i].0.as_str()) {
                proof {
                    assert(views[i as int].0 == values@[i as int].0@);
                    lemma_member_names(views, values@[i as int].0@);
                    assert(members_view(values@).contains_key(values@[i as int].0@));
                }
                return false;
            }
        }
        proof {
            assert forall|name: Seq<char>| #[trigger]
                members_view(values@).contains_key(name) implies texts(
                self.public_fields@,
            ).contains(name) by {
                lemma_member_names(views, name);
                let k = choose|k: int| 0 <= k < views.len() && (#[trigger] views[k]).0 == name;
                assert(values@[k].0@ == name);
            }
        }
        let document = Json::Object(copy_members(values));
        within(&document, MAX_CONFIGURATION_BYTES) && accepts(
            &self.schema,
            BACKTRACK_LIMIT,
            &document,
        )
    }

    /// Takes the settings that a plugin answered: `result` is the answer's own result and `values`
    /// what its payload holds, where it holds settings.
    pub fn answered(&self, result: &Json, values: Option<Vec<(String, Json)>>) -> (shown: Result<
        Vec<(String, Json)>,
        ProviderAdminError,
    >)
        ensures
            match values {
                Some(values) if result@ == JsonView::Object(Map::empty()) && self.may_show(
                    members_view(values@),
                ) => shown matches Ok(found) && found == values,
                _ => shown matches Err(error) && error == admin(ProviderAdminErrorKind::BadGateway),
            },
    {
        if !result.is_empty_object() {
            return Err(ProviderAdminError::new(ProviderAdminErrorKind::BadGateway));
        }
        match values {
            Some(values) => if self.validate(&values) {
                Ok(values)
            } else {
                Err(ProviderAdminError::new(ProviderAdminErrorKind::BadGateway))
            },
            None => Err(ProviderAdminError::new(ProviderAdminErrorKind::BadGateway)),
        }
    }
}

/// The credential that was loaded belongs to the account that was asked for.
pub fn loaded_as_asked(credential: &LoadedCredential, id: &str, provider: &str) -> (result: Result<
    (),
    ProviderAdminError,
>)
    ensures
        result == (if credential.account.id@ == id@ && credential.account.provider@ == provider@ {
            Ok::<(), ProviderAdminError>(())
        } else {
            Err(admin(ProviderAdminErrorKind::Conflict))
        }),
{
    if !same(credential.account.id.as_str(), id) || !same(
        credential.account.provider.as_str(),
        provider,
    ) {
        return Err(conflict());
    }
    Ok(())
}

/// What a plugin answered that was asked for the settings of an account.
pub struct ConfigurationAnswer {
    pub result: Json,
    /// What the bytes that came with the answer hold, where they hold settings.
    pub values: Option<Vec<(String, Json)>>,
    /// The account is still the one that was asked for.
    pub kept: Result<(), ProviderAdminError>,
}

/// Whether a plugin is asked for the settings of an account: only where some are shown.
pub fn asks_configuration(declared: &Option<PreparedAccountConfiguration>) -> (r: bool)
    ensures
        r == declared is Some,
{
    declared.is_some()
}

/// The settings of an account that are shown. Where none are declared there are none, and nobody is
/// asked; `answer` is what came of asking.
pub fn connection_configuration(
    declared: &Option<PreparedAccountConfiguration>,
    answer: Result<ConfigurationAnswer, ProviderAdminError>,
) -> (result: Result<Option<Vec<(String, Json)>>, ProviderAdminError>)
    ensures
        is_shown_configuration(*declared, answer, result),
{
    let shown = match declared {
        Some(shown) => shown,
        None => return Ok(None),
    };
    let told = match answer {
        Ok(told) => told,
        Err(error) => return Err(error),
    };
    let values = match shown.answered(&told.result, told.values) {
        Ok(values) => values,
        Err(error) => return Err(error),
    };
    match told.kept {
        Ok(()) => Ok(Some(values)),
        Err(error) => Err(error),
    }
}

/// Nothing is shown exactly where nothing is declared, and whatever is shown is declared.
pub proof fn shown_where_declared(
    declared: Option<PreparedAccountConfiguration>,
    values: Map<Seq<char>, JsonView>,
    name: Seq<char>,
)
    requires
        declared matches Some(shown) && shown.may_show(values),
        values.contains_key(name),
    ensures
        texts(declared->0.public_fields@).contains(name),
{
}

/// The schema of what is shown has exactly the declared fields, each with the schema under which it
/// is rotated, and none of them marks a secret.
pub proof fn shown_fields_are_declared(
    fields: Seq<String>,
    properties: Map<Seq<char>, JsonView>,
)
    requires
        are_public(fields, properties),
    ensures
        forall|name: Seq<char>| #[trigger]
            projected(fields, properties).contains_key(name) <==> texts(fields).contains(name),
        forall|name: Seq<char>| #[trigger]
            projected(fields, properties).contains_key(name) ==> projected(fields, properties)[name]
                == properties[name] && !mentions_secret(properties[name]) && !mentions(
                properties[name],
                indirect_words(),
            ),
    decreases fields.len(),
{
    if fields.len() > 0 {
        let front = fields.drop_last();
        assert forall|i: int| 0 <= i < front.len() implies properties.contains_key(
            (#[trigger] front[i])@,
        ) && is_public_property(properties[front[i]@]) by {
            assert(front[i] == fields[i]);
        }
        shown_fields_are_declared(front, properties);
        assert forall|name: Seq<char>| #[trigger]
            projected(fields, properties).contains_key(name) <==> texts(fields).contains(name) by {
            let all = texts(fields);
            let before = texts(front);
            assert(all =~= before.push(fields.last()@));
            assert(projected(front, properties).contains_key(name) <==> before.contains(name));
            if before.contains(name) {
                let k = choose|k: int| 0 <= k < before.len() && before[k] == name;
                assert(all[k] == name);
            }
            if name == fields.last()@ {
                assert(all[all.len() - 1] == name);
            }
        }
        assert(fields[fields.len() - 1] == fields.last());
        assert forall|name: Seq<char>| #[trigger]
            projected(fields, properties).contains_key(name) implies projected(
            fields,
            properties,
        )[name] == properties[name] && !mentions_secret(properties[name]) && !mentions(
            properties[name],
            indirect_words(),
        ) by {
            if name != fields.last()@ {
                assert(projected(front, properties).contains_key(name));
            }
        }
    } else {
        assert(texts(fields) =~= Seq::<Seq<char>>::empty());
    }
}

/// Every word of a schema that leads elsewhere, or makes it depend on what it checks, is known.
pub proof fn indirect_words_are_known()
    ensures
        indirect_words().contains("$ref"@),
        indirect_words().contains("$dynamicRef"@),
        indirect_words().contains("$recursiveRef"@),
        indirect_words().contains("allOf"@),
        indirect_words().contains("anyOf"@),
        indirect_words().contains("oneOf"@),
        indirect_words().contains("not"@),
        indirect_words().contains("if"@),
        indirect_words().contains("then"@),
        indirect_words().contains("else"@),
        indirect_words().contains("dependentSchemas"@),
        indirect_words().contains("dependencies"@),
        indirect_words().contains("patternProperties"@),
        indirect_words().contains("unevaluatedProperties"@),
        indirect_words().contains("unevaluatedItems"@),
        indirect_words().contains("contentSchema"@),
        indirect_words().len() == 16,
{
    assert(indirect_words()[0] == "$ref"@);
    assert(indirect_words()[1] == "$dynamicRef"@);
    assert(indirect_words()[2] == "$recursiveRef"@);
    assert(indirect_words()[3] == "allOf"@);
    assert(indirect_words()[4] == "anyOf"@);
    assert(indirect_words()[5] == "oneOf"@);
    assert(indirect_words()[6] == "not"@);
    assert(indirect_words()[7] == "if"@);
    assert(indirect_words()[8] == "then"@);
    assert(indirect_words()[9] == "else"@);
    assert(indirect_words()[10] == "dependentSchemas"@);
    assert(indirect_words()[11] == "dependencies"@);
    assert(indirect_words()[12] == "patternProperties"@);
    assert(indirect_words()[13] == "unevaluatedProperties"@);
    assert(indirect_words()[14] == "unevaluatedItems"@);
    assert(indirect_words()[15] == "contentSchema"@);
}

/// A name stands somewhere in a document exactly if it names one of its members, or stands somewhere in
/// one of its parts; a single value holds no name.
pub proof fn names_are_found_in_depth(document: JsonView, words: Seq<Seq<char>>)
    ensures
        document matches JsonView::Object(members) ==> (mentions(document, words) <==> exists|
            name: Seq<char>,
        | #[trigger]
            members.contains_key(name) && (words.contains(name) || mentions(members[name], words))),
        document matches JsonView::Array(items) ==> (mentions(document, words) <==> exists|i: int|
            0 <= i < items.len() && mentions(#[trigger] items[i], words)),
        !(document is Object || document is Array) ==> !mentions(document, words),
{
}

/// A secret is marked somewhere in a document exactly if it says that it is only written or is a
/// password, or one of its parts does; a single value marks nothing.
pub proof fn secrets_are_found_in_depth(document: JsonView)
    ensures
        document matches JsonView::Object(members) ==> (mentions_secret(document) <==> (
        members.contains_key("writeOnly"@) && members["writeOnly"@] == JsonView::Bool(true)) || (
        members.contains_key("format"@) && members["format"@] == JsonView::Text("password"@)) || (
        exists|name: Seq<char>| #[trigger]
            members.contains_key(name) && mentions_secret(members[name]))),
        document matches JsonView::Array(items) ==> (mentions_secret(document) <==> exists|i: int|
            0 <= i < items.len() && mentions_secret(#[trigger] items[i])),
        !(document is Object || document is Array) ==> !mentions_secret(document),
{
}

/// A field may be shown exactly if its schema describes a text, a number, an integer or a truth value,
/// is not of a value that is only written or only read or a password, and neither leads elsewhere nor
/// marks a secret anywhere in it.
pub proof fn public_properties(schema: JsonView)
    ensures
        is_public_property(schema) <==> {
            &&& schema is Object
            &&& member(schema, "type"@) == Some(JsonView::Text("string"@)) || member(schema, "type"@)
                == Some(JsonView::Text("number"@)) || member(schema, "type"@) == Some(
                JsonView::Text("integer"@),
            ) || member(schema, "type"@) == Some(JsonView::Text("boolean"@))
            &&& member(schema, "writeOnly"@) != Some(JsonView::Bool(true))
            &&& member(schema, "readOnly"@) != Some(JsonView::Bool(true))
            &&& member(schema, "format"@) != Some(JsonView::Text("password"@))
            &&& !mentions(schema, indirect_words())
            &&& !mentions_secret(schema)
        },
{
}

/// The schema of the settings is one for an object that has none of those words at its top, and is not
/// one that is only written or only read.
pub proof fn configuration_roots(schema: JsonView, word: Seq<char>)
    requires
        is_configuration_root(schema),
    ensures
        member(schema, "type"@) == Some(JsonView::Text("object"@)),
        indirect_words().contains(word) ==> member(schema, word) is None,
        member(schema, "writeOnly"@) != Some(JsonView::Bool(true)),
        member(schema, "readOnly"@) != Some(JsonView::Bool(true)),
{
}

/// Fields are shown exactly if the plugin rotates credentials, names 1 to 64 of them, each once and
/// with 1 to 128 bytes and no control code, and each may be shown under the schema by which it is
/// rotated.
pub proof fn configuration_in_order(
    fields: Seq<String>,
    operations: Seq<CredentialOperation>,
    rotate_schema: Option<JsonView>,
)
    ensures
        configuration_fault(fields, operations, rotate_schema) is None <==> {
            &&& operations.contains(CredentialOperation::Rotate)
            &&& 1 <= fields.len() <= 64
            &&& texts(fields).no_duplicates()
            &&& forall|i: int|
                0 <= i < fields.len() ==> 1 <= byte_len((#[trigger] fields[i])@) <= 128
                    && !has_control(fields[i]@)
            &&& rotate_schema is Some && is_configuration_root(rotate_schema->0)
            &&& properties_of(rotate_schema->0) is Some
            &&& forall|i: int|
                0 <= i < fields.len() ==> properties_of(rotate_schema->0)->0.contains_key(
                    (#[trigger] fields[i])@,
                ) && is_public_property(properties_of(rotate_schema->0)->0[fields[i]@])
            &&& schema_compiles(shown_schema(fields, properties_of(rotate_schema->0)->0), 20_000)
        },
{
    assert(are_fields(fields) == (texts(fields).no_duplicates() && forall|i: int|
        0 <= i < fields.len() ==> 1 <= byte_len((#[trigger] fields[i])@) <= 128 && !has_control(
            fields[i]@,
        ))) by {
        assert forall|i: int| 0 <= i < fields.len() implies is_field_name((#[trigger] fields[i])@)
            == (1 <= byte_len(fields[i]@) <= 128 && !has_control(fields[i]@)) by {}
    }
}

/// The schema of what is shown is one for an object with the given fields and no others.
pub proof fn shown_schema_says(fields: Seq<String>, properties: Map<Seq<char>, JsonView>)
    ensures
        member(shown_schema(fields, properties), "type"@) == Some(JsonView::Text("object"@)),
        member(shown_schema(fields, properties), "properties"@) == Some(
            JsonView::Object(projected(fields, properties)),
        ),
        member(shown_schema(fields, properties), "additionalProperties"@) == Some(
            JsonView::Bool(false),
        ),
        properties_of(shown_schema(fields, properties)) == Some(projected(fields, properties)),
{
    reveal_strlit("type");
    reveal_strlit("properties");
    reveal_strlit("additionalProperties");
    assert("type"@.len() == 4);
    assert("properties"@.len() == 10);
    assert("additionalProperties"@.len() == 20);
}

/// Settings are shown exactly if every one of them is a declared field, they take at most 65536 bytes,
/// and the schema of what is shown accepts them.
pub proof fn shown_settings(
    shown: PreparedAccountConfiguration,
    values: Map<Seq<char>, JsonView>,
)
    ensures
        shown.may_show(values) <==> {
            &&& forall|name: Seq<char>| #[trigger]
                values.contains_key(name) ==> texts(shown.public_fields@).contains(name)
            &&& fits(JsonView::Object(values), 65536)
            &&& schema_compiles(shown.schema@, 20_000)
            &&& schema_accepts(shown.schema@, 20_000, JsonView::Object(values))
        },
{
}

/// The schema of settings may be taken apart if it describes an object, refers to nothing else, and is
/// neither secret nor read-only.
pub proof fn configuration_roots_exactly(members: Map<Seq<char>, JsonView>)
    ensures
        is_configuration_root(JsonView::Object(members)) <==> {
            let schema = JsonView::Object(members);
            &&& member(schema, "type"@) == Some(JsonView::Text("object"@))
            &&& forall|word: Seq<char>| #[trigger]
                indirect_words().contains(word) ==> !members.contains_key(word)
            &&& member(schema, "writeOnly"@) != Some(JsonView::Bool(true))
            &&& member(schema, "readOnly"@) != Some(JsonView::Bool(true))
            &&& member(schema, "format"@) != Some(JsonView::Text("password"@))
        },
{
}

/// The settings of a connection that are shown.
pub open spec fn is_shown_configuration(
    declared: Option<PreparedAccountConfiguration>,
    answer: Result<ConfigurationAnswer, ProviderAdminError>,
    result: Result<Option<Vec<(String, Json)>>, ProviderAdminError>,
) -> bool {
    match declared {
        None => result matches Ok(shown) && shown is None,
        Some(shown) => match answer {
            Err(error) => result matches Err(fault) && fault == error,
            Ok(told) => match told.values {
                Some(values) if told.result@ == JsonView::Object(Map::empty()) && shown.may_show(
                    members_view(values@),
                ) => match told.kept {
                    Ok(_) => result matches Ok(Some(found)) && found == values,
                    Err(error) => result matches Err(fault) && fault == error,
                },
                _ => result matches Err(error) && error == admin(ProviderAdminErrorKind::BadGateway),
            },
        },
    }
}

/// Only settings that are declared as public are ever shown, and only for an account that is still the
/// same; where none are declared, there is nothing to show.
pub proof fn only_public_settings_are_shown(
    declared: Option<PreparedAccountConfiguration>,
    answer: Result<ConfigurationAnswer, ProviderAdminError>,
    result: Result<Option<Vec<(String, Json)>>, ProviderAdminError>,
    name: Seq<char>,
)
    requires
        is_shown_configuration(declared, answer, result),
    ensures
        declared is None ==> result == Ok::<Option<Vec<(String, Json)>>, ProviderAdminError>(None),
        result matches Ok(Some(shown)) ==> (declared matches Some(known) && known.may_show(
            members_view(shown@),
        ) && (members_view(shown@).contains_key(name) ==> texts(known.public_fields@).contains(name))),
        result matches Ok(Some(shown)) ==> (answer matches Ok(told) && told.values == Some(shown)
            && told.kept is Ok),
        declared is Some ==> (answer matches Ok(told) ==> (told.values is None ==> (result matches Err(
            error,
        ) && error.kind is BadGateway))),
        declared is Some ==> (answer matches Err(error) ==> (result matches Err(fault) && fault
            == error)),
{
    if let Ok(Some(shown)) = result {
        if members_view(shown@).contains_key(name) {
            shown_where_declared(declared, members_view(shown@), name);
        }
    }
}

} // verus!
