//! The forms in which credentials are given to a provider. A form is a schema; it is checked when
//! the provider is prepared, and resolves no reference outside itself.

use vstd::prelude::*;

use crate::fault::{
    admin, invalid, refused, unsupported, AdminError, AdminReason, ProviderAdminError,
    ProviderAdminErrorKind,
};
use crate::json::{
    accepts, compiles, copy_members, fits, member, members_view, put, schema_accepts,
    schema_compiles, within, Json, JsonView,
};
use crate::manifest::{has_credential_operation, CredentialOperation};
use crate::provider_capabilities::{
    AuthorizationCompletion, ProviderCredentialCapabilities, ProviderLoginCapability,
};

verus! {

/// The most bytes of a form, and of what is given in a login form.
pub const MAX_FORM_BYTES: usize = 65536;

/// How far the patterns of a form may go back while they are matched.
pub const BACKTRACK_LIMIT: usize = 20_000;

/// The forms that a plugin declares, by operation.
pub struct CredentialForms {
    pub import: Option<Json>,
    pub rotate: Option<Json>,
    pub login: Option<Json>,
    pub refresh: Option<Json>,
    pub export: Option<Json>,
}

/// The forms of a provider, by operation: one for each operation that takes an input.
pub struct CredentialInputs {
    pub import: Option<Json>,
    pub rotate: Option<Json>,
    pub login: Option<Json>,
}

/// What a form says, where there is one.
pub open spec fn form_view(form: Option<Json>) -> Option<JsonView> {
    match form {
        Some(form) => Some(form@),
        None => None,
    }
}

impl CredentialForms {
    /// The declared form of an operation.
    pub open spec fn form(&self, operation: CredentialOperation) -> Option<JsonView> {
        match operation {
            CredentialOperation::Import => form_view(self.import),
            CredentialOperation::Rotate => form_view(self.rotate),
            CredentialOperation::Login => form_view(self.login),
            CredentialOperation::Refresh => form_view(self.refresh),
            CredentialOperation::Export => form_view(self.export),
        }
    }
}

impl CredentialInputs {
    /// The form of an operation.
    pub open spec fn form(&self, operation: CredentialOperation) -> Option<JsonView> {
        match operation {
            CredentialOperation::Import => form_view(self.import),
            CredentialOperation::Rotate => form_view(self.rotate),
            CredentialOperation::Login => form_view(self.login),
            _ => None,
        }
    }

    pub fn get(&self, operation: CredentialOperation) -> (form: Option<&Json>)
        ensures
            form is Some == self.form(operation) is Some,
            form matches Some(f) ==> self.form(operation) == Some(f@),
    {
        match operation {
            CredentialOperation::Import => self.import.as_ref(),
            CredentialOperation::Rotate => self.rotate.as_ref(),
            CredentialOperation::Login => self.login.as_ref(),
            _ => None,
        }
    }
}

/// An operation that takes an input.
pub open spec fn takes_input(operation: CredentialOperation) -> bool {
    operation is Import || operation is Rotate || operation is Login
}

/// Forms are declared only for operations that are declared and take an input.
pub open spec fn are_declared(forms: CredentialForms, operations: Seq<CredentialOperation>) -> bool {
    forall|operation: CredentialOperation| (#[trigger] forms.form(operation)) is Some ==> takes_input(
        operation,
    ) && operations.contains(operation)
}

/// The form of an operation for which none is declared: an object, and for a login an empty one.
pub open spec fn default_form(operation: CredentialOperation) -> JsonView {
    JsonView::Object(
        Map::empty().insert("type"@, JsonView::Text("object"@)).insert(
            "additionalProperties"@,
            JsonView::Bool(operation != CredentialOperation::Login),
        ),
    )
}

/// The form of an operation.
pub open spec fn form_of(forms: CredentialForms, operation: CredentialOperation) -> JsonView {
    match forms.form(operation) {
        Some(form) => form,
        None => default_form(operation),
    }
}

/// What is wrong with a form.
pub open spec fn form_fault(form: JsonView) -> Option<AdminReason> {
    if member(form, "type"@) != Some(JsonView::Text("object"@)) || !fits(
        form,
        MAX_FORM_BYTES as nat,
    ) {
        Some(AdminReason::CredentialFormShape)
    } else if !schema_compiles(form, BACKTRACK_LIMIT as nat) {
        Some(AdminReason::CredentialFormSchema)
    } else {
        None
    }
}

/// What is wrong with the form of an operation, where the operation is declared.
pub open spec fn operation_fault(
    forms: CredentialForms,
    operations: Seq<CredentialOperation>,
    operation: CredentialOperation,
) -> Option<AdminReason> {
    if operations.contains(operation) {
        form_fault(form_of(forms, operation))
    } else {
        None
    }
}

/// The first thing that is wrong with the forms.
pub open spec fn forms_fault(
    forms: CredentialForms,
    operations: Seq<CredentialOperation>,
) -> Option<AdminReason> {
    if !are_declared(forms, operations) {
        Some(AdminReason::CredentialFormOperation)
    } else if operation_fault(forms, operations, CredentialOperation::Import) is Some {
        operation_fault(forms, operations, CredentialOperation::Import)
    } else if operation_fault(forms, operations, CredentialOperation::Rotate) is Some {
        operation_fault(forms, operations, CredentialOperation::Rotate)
    } else {
        operation_fault(forms, operations, CredentialOperation::Login)
    }
}

/// The forms that a provider has.
pub open spec fn are_inputs(
    inputs: CredentialInputs,
    forms: CredentialForms,
    operations: Seq<CredentialOperation>,
) -> bool {
    forall|operation: CredentialOperation| #[trigger]
        inputs.form(operation) == (if takes_input(operation) && operations.contains(operation) {
            Some(form_of(forms, operation))
        } else {
            None
        })
}

fn write_default(operation: CredentialOperation) -> (form: Json)
    ensures
        form@ == default_form(operation),
{
    let mut members: Vec<(String, Json)> = Vec::new();
    put(&mut members, "type", Json::text("object"));
    put(
        &mut members,
        "additionalProperties",
        Json::Bool(operation != CredentialOperation::Login),
    );
    Json::Object(members)
}

/// The form of an operation that is declared, checked.
fn prepare_form(declared: Option<Json>, operation: CredentialOperation) -> (result: Result<
    Json,
    AdminError,
>)
    ensures
        ({
            let form = match declared {
                Some(form) => form@,
                None => default_form(operation),
            };
            match form_fault(form) {
                Some(reason) => result matches Err(error) && error == refused(reason),
                None => result matches Ok(prepared) && prepared@ == form,
            }
        }),
{
    let form = match declared {
        Some(form) => form,
        None => write_default(operation),
    };
    let object = match form.get("type") {
        Some(kind) => kind.is_text("object"),
        None => false,
    };
    if !object || !within(&form, MAX_FORM_BYTES) {
        return Err(AdminError::invalid(AdminReason::CredentialFormShape));
    }
    if !compiles(&form, BACKTRACK_LIMIT) {
        return Err(AdminError::invalid(AdminReason::CredentialFormSchema));
    }
    Ok(form)
}

fn prepare_operation(
    declared: Option<Json>,
    operation: CredentialOperation,
    operations: &Vec<CredentialOperation>,
) -> (result: Result<Option<Json>, AdminError>)
    ensures
        ({
            let form = match declared {
                Some(form) => form@,
                None => default_form(operation),
            };
            if operations@.contains(operation) {
                match form_fault(form) {
                    Some(reason) => result matches Err(error) && error == refused(reason),
                    None => result matches Ok(Some(prepared)) && prepared@ == form,
                }
            } else {
                result matches Ok(prepared) && prepared is None
            }
        }),
{
    if !has_credential_operation(operations, operation) {
        return Ok(None);
    }
    match prepare_form(declared, operation) {
        Ok(form) => Ok(Some(form)),
        Err(error) => Err(error),
    }
}

pub fn prepare_inputs(operations: &Vec<CredentialOperation>, forms: CredentialForms) -> (result:
    Result<CredentialInputs, AdminError>)
    ensures
        match forms_fault(forms, operations@) {
            Some(reason) => result matches Err(error) && error == refused(reason),
            None => result matches Ok(inputs) && are_inputs(inputs, forms, operations@),
        },
{
    let undeclared = (forms.import.is_some() && !has_credential_operation(
        operations,
        CredentialOperation::Import,
    )) || (forms.rotate.is_some() && !has_credential_operation(
        operations,
        CredentialOperation::Rotate,
    )) || (forms.login.is_some() && !has_credential_operation(
        operations,
        CredentialOperation::Login,
    ));
    proof {
        assert(forms.form(CredentialOperation::Import) == form_view(forms.import));
        assert(forms.form(CredentialOperation::Rotate) == form_view(forms.rotate));
        assert(forms.form(CredentialOperation::Login) == form_view(forms.login));
        assert(forms.form(CredentialOperation::Refresh) == form_view(forms.refresh));
        assert(forms.form(CredentialOperation::Export) == form_view(forms.export));
    }
    if undeclared || forms.refresh.is_some() || forms.export.is_some() {
        return Err(AdminError::invalid(AdminReason::CredentialFormOperation));
    }
    let import = match prepare_operation(forms.import, CredentialOperation::Import, operations) {
        Ok(form) => form,
        Err(error) => return Err(error),
    };
    let rotate = match prepare_operation(forms.rotate, CredentialOperation::Rotate, operations) {
        Ok(form) => form,
        Err(error) => return Err(error),
    };
    let login = match prepare_operation(forms.login, CredentialOperation::Login, operations) {
        Ok(form) => form,
        Err(error) => return Err(error),
    };
    Ok(CredentialInputs { import, rotate, login })
}

/// Something that may be given in a form.
pub open spec fn is_input(
    form: JsonView,
    operation: CredentialOperation,
    document: JsonView,
) -> bool {
    &&& operation == CredentialOperation::Login ==> fits(document, MAX_FORM_BYTES as nat)
    &&& schema_compiles(form, BACKTRACK_LIMIT as nat)
    &&& schema_accepts(form, BACKTRACK_LIMIT as nat, document)
}

/// Checks what is given for an operation. What is wrong with it is not said: it may hold secrets.
pub fn validate_credential_input(
    inputs: &CredentialInputs,
    operation: CredentialOperation,
    document: &Vec<(String, Json)>,
) -> (result: Result<(), ProviderAdminError>)
    ensures
        result == match inputs.form(operation) {
            None => Err::<(), ProviderAdminError>(admin(ProviderAdminErrorKind::Unsupported)),
            Some(form) => if is_input(
                form,
                operation,
                JsonView::Object(members_view(document@)),
            ) {
                Ok(())
            } else {
                Err(admin(ProviderAdminErrorKind::Invalid))
            },
        },
{
    let form = match inputs.get(operation) {
        Some(form) => form,
        None => return Err(unsupported()),
    };
    let value = Json::Object(copy_members(document));
    if (operation == CredentialOperation::Login && !within(&value, MAX_FORM_BYTES)) || !accepts(
        form,
        BACKTRACK_LIMIT,
        &value,
    ) {
        return Err(invalid());
    }
    Ok(())
}

fn copy_form(form: &Option<Json>) -> (copy: Option<Json>)
    ensures
        form_view(copy) == form_view(*form),
{
    match form {
        Some(form) => Some(form.copy()),
        None => None,
    }
}

/// What can be done with the credentials of a provider.
pub fn credential_capabilities(
    inputs: &CredentialInputs,
    operations: &Vec<CredentialOperation>,
) -> (capabilities: ProviderCredentialCapabilities)
    ensures
        are_offered(capabilities, *inputs, operations@),
{
    ProviderCredentialCapabilities {
        import: copy_form(&inputs.import),
        login: match &inputs.login {
            Some(form) => Some(
                ProviderLoginCapability {
                    input_schema: form.copy(),
                    completion: AuthorizationCompletion::Poll,
                },
            ),
            None => None,
        },
        refresh: has_credential_operation(operations, CredentialOperation::Refresh),
        export: has_credential_operation(operations, CredentialOperation::Export),
    }
}

/// An operation can be given an input exactly where it is declared and takes one.
pub proof fn inputs_follow_operations(
    inputs: CredentialInputs,
    forms: CredentialForms,
    operations: Seq<CredentialOperation>,
    operation: CredentialOperation,
)
    requires
        are_inputs(inputs, forms, operations),
    ensures
        inputs.form(operation) is Some <==> takes_input(operation) && operations.contains(operation),
{
}

/// Of the operations on credentials an import, a rotation and a login take an input; a refresh and an
/// export do not.
pub proof fn operations_with_input(operation: CredentialOperation)
    ensures
        !takes_input(operation) <==> operation is Refresh || operation is Export,
{
}

/// Where no form is declared, an object is asked for: any for an import or a rotation, an empty one
/// for a login. Where one is declared, it is asked for.
pub proof fn default_forms(forms: CredentialForms, operation: CredentialOperation)
    ensures
        forms.form(operation) is Some ==> form_of(forms, operation) == forms.form(operation)->0,
        forms.form(operation) is None ==> member(form_of(forms, operation), "type"@) == Some(
            JsonView::Text("object"@),
        ) && member(form_of(forms, operation), "additionalProperties"@) == Some(
            JsonView::Bool(!(operation is Login)),
        ),
        operation is Import && forms.import is Some ==> form_of(forms, operation)
            == forms.import->0@,
        operation is Rotate && forms.rotate is Some ==> form_of(forms, operation)
            == forms.rotate->0@,
        operation is Login && forms.login is Some ==> form_of(forms, operation) == forms.login->0@,
{
    reveal_strlit("type");
    reveal_strlit("additionalProperties");
    assert("type"@.len() == 4);
    assert("additionalProperties"@.len() == 20);
}

/// A form is in order exactly if it is one for an object, has at most 65536 bytes, and is a schema
/// whose patterns go back at most 20000 steps.
pub proof fn forms_in_order(form: JsonView)
    ensures
        form_fault(form) is None <==> member(form, "type"@) == Some(JsonView::Text("object"@))
            && fits(form, 65536) && schema_compiles(form, 20_000),
        !fits(form, 65536) ==> form_fault(form) == Some(AdminReason::CredentialFormShape),
{
}

/// The forms of a provider are in order exactly if they are declared only for operations that it
/// has and that take an input, and the form of each such operation is in order.
pub proof fn every_form_in_order(forms: CredentialForms, operations: Seq<CredentialOperation>)
    ensures
        forms_fault(forms, operations) is None <==> {
            &&& forms.refresh is None && forms.export is None
            &&& forms.import is Some ==> operations.contains(CredentialOperation::Import)
            &&& forms.rotate is Some ==> operations.contains(CredentialOperation::Rotate)
            &&& forms.login is Some ==> operations.contains(CredentialOperation::Login)
            &&& operations.contains(CredentialOperation::Import) ==> form_fault(
                form_of(forms, CredentialOperation::Import),
            ) is None
            &&& operations.contains(CredentialOperation::Rotate) ==> form_fault(
                form_of(forms, CredentialOperation::Rotate),
            ) is None
            &&& operations.contains(CredentialOperation::Login) ==> form_fault(
                form_of(forms, CredentialOperation::Login),
            ) is None
        },
{
    assert(forms.form(CredentialOperation::Import) is Some == forms.import is Some);
    assert(forms.form(CredentialOperation::Rotate) is Some == forms.rotate is Some);
    assert(forms.form(CredentialOperation::Login) is Some == forms.login is Some);
    assert(forms.form(CredentialOperation::Refresh) is Some == forms.refresh is Some);
    assert(forms.form(CredentialOperation::Export) is Some == forms.export is Some);
}

/// What is given in a form is taken exactly if the form's schema accepts it and, in a login, it has at
/// most 65536 bytes. An operation that has a form has the one that was declared, or the default.
pub proof fn inputs_in_order(
    inputs: CredentialInputs,
    forms: CredentialForms,
    operations: Seq<CredentialOperation>,
    operation: CredentialOperation,
    document: JsonView,
)
    requires
        are_inputs(inputs, forms, operations),
    ensures
        is_input(form_of(forms, operation), operation, document) <==> {
            &&& schema_compiles(form_of(forms, operation), 20_000)
            &&& schema_accepts(form_of(forms, operation), 20_000, document)
            &&& operation is Login ==> fits(document, 65536)
        },
        inputs.form(operation) is Some ==> inputs.form(operation) == Some(form_of(forms, operation)),
{
}

/// What can be done with the credentials of a provider.
pub open spec fn are_offered(
    capabilities: ProviderCredentialCapabilities,
    inputs: CredentialInputs,
    operations: Seq<CredentialOperation>,
) -> bool {
    &&& form_view(capabilities.import) == inputs.form(CredentialOperation::Import)
    &&& match inputs.form(CredentialOperation::Login) {
        Some(form) => capabilities.login matches Some(login) && login.input_schema@ == form
            && login.completion == AuthorizationCompletion::Poll,
        None => capabilities.login is None,
    }
    &&& capabilities.refresh == operations.contains(CredentialOperation::Refresh)
    &&& capabilities.export == operations.contains(CredentialOperation::Export)
}

/// Just what is declared is offered, with the form that input has to follow; logins are always asked
/// about until they end.
pub proof fn offered_as_declared(
    capabilities: ProviderCredentialCapabilities,
    inputs: CredentialInputs,
    forms: CredentialForms,
    operations: Seq<CredentialOperation>,
)
    requires
        are_inputs(inputs, forms, operations),
        are_offered(capabilities, inputs, operations),
    ensures
        capabilities.import is Some <==> operations.contains(CredentialOperation::Import),
        capabilities.login is Some <==> operations.contains(CredentialOperation::Login),
        capabilities.refresh <==> operations.contains(CredentialOperation::Refresh),
        capabilities.export <==> operations.contains(CredentialOperation::Export),
        capabilities.import matches Some(form) ==> form@ == form_of(
            forms,
            CredentialOperation::Import,
        ),
        capabilities.login matches Some(login) ==> login.input_schema@ == form_of(
            forms,
            CredentialOperation::Login,
        ) && login.completion is Poll,
{
    inputs_follow_operations(inputs, forms, operations, CredentialOperation::Import);
    inputs_follow_operations(inputs, forms, operations, CredentialOperation::Login);
    inputs_in_order(inputs, forms, operations, CredentialOperation::Import, JsonView::Null);
    inputs_in_order(inputs, forms, operations, CredentialOperation::Login, JsonView::Null);
}

} // verus!
