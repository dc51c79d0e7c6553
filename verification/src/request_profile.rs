//! The clients that a provider can present itself as. Which there are is checked when the provider
//! is prepared and when newer releases become known; a request that was resolved does not change.

use vstd::prelude::*;

use crate::address::{is_web_address, web_address};
use crate::digest::{digest, same_digest, sha256};
use crate::fault::{
    admin, invalid, refused, unsent_error, AdminError, AdminReason, ProviderAdminError,
    ProviderAdminErrorKind, ProviderError, ProviderErrorKind,
};
use crate::json::{
    copy_members, fits, items_view, lemma_items_view, members_eq, members_view, optional_json, put,
    same_document, text_or_null, within, Json, JsonView, NumberView,
};
use crate::moment::{is_optional_moment, is_timestamp, moment_text, write_moment};
use crate::text::{
    byte_len, contains_control, has_control, identifier, is_identifier, is_trimmed, length_in_bytes,
    same, text_of, trimmed,
};

verus! {

/// The most clients to choose from.
pub const MAXIMUM_OPTIONS: usize = 128;

/// The most bytes of a configuration.
pub const MAXIMUM_DOCUMENT_BYTES: usize = 65536;

/// The most bytes of the name of a client.
pub const MAXIMUM_ID_BYTES: usize = 64;

/// The most bytes of a label.
pub const MAXIMUM_LABEL_BYTES: usize = 128;

/// The most bytes of a description.
pub const MAXIMUM_DESCRIPTION_BYTES: usize = 1024;

/// The most bytes of a text that presents a client.
pub const MAXIMUM_PRESENTATION_TEXT_BYTES: usize = 4096;

/// The most attributes that present a client.
pub const MAXIMUM_ATTRIBUTES: usize = 64;

/// The machine that a client runs on.
pub struct RequestProfileTarget {
    pub os_type: String,
    pub os_version: String,
    pub arch: String,
    pub terminal: String,
}

/// Something that is said of a client.
pub struct RequestProfileAttribute {
    pub label: String,
    pub value: String,
}

/// Whether a client is the newest.
#[derive(Clone, Copy, Debug, PartialEq, Eq, Structural)]
pub enum DesktopReleaseStatus {
    Unchecked,
    Current,
    UpdateAvailable,
    Failed,
}

/// The newest release of a client. Points in time are in milliseconds since the epoch.
pub struct RequestProfileRelease {
    pub status: DesktopReleaseStatus,
    pub checked_at_ms: Option<i64>,
    pub latest_version: Option<String>,
    pub latest_build: Option<String>,
    pub published_at_ms: Option<i64>,
    pub minimum_system_version: Option<String>,
    pub hardware_requirements: Option<String>,
    pub download_url: Option<String>,
    pub download_size: Option<u64>,
    pub signature_present: bool,
    pub error: Option<String>,
}

/// How a client presents itself.
pub struct RequestProfilePresentation {
    pub product: String,
    pub version: String,
    pub build: Option<String>,
    pub target: RequestProfileTarget,
    pub user_agent: String,
    pub attributes: Vec<RequestProfileAttribute>,
    pub verified_at_ms: Option<i64>,
    pub release: Option<RequestProfileRelease>,
}

/// A client to choose: how it is chosen, and what it stands for.
pub struct RequestProfileOption {
    pub id: String,
    pub label: String,
    pub description: Option<String>,
    pub configuration: Vec<(String, Json)>,
    pub resolved: Vec<(String, Json)>,
    pub presentation: RequestProfilePresentation,
}

/// The clients to choose from, as a plugin declares them.
pub struct RequestProfileDescriptor {
    pub default_configuration: Vec<(String, Json)>,
    pub options: Vec<RequestProfileOption>,
}

/// A newer list of the clients to choose from.
pub struct RequestProfileRefresh {
    pub sequence: u64,
    pub profiles: RequestProfileDescriptor,
}

/// How far a newer list may go.
#[derive(Clone, Copy, Debug, PartialEq, Eq, Structural)]
pub struct RequestProfileLimits {
    pub maximum_sequence: u64,
    pub maximum_bytes: usize,
}

/// A text in a declaration: bounded, without white space at its ends and without control codes.
pub open spec fn is_declared_text(text: Seq<char>, maximum: nat, allow_empty: bool) -> bool {
    &&& byte_len(text) <= maximum
    &&& allow_empty || byte_len(text) > 0
    &&& is_trimmed(text)
    &&& !has_control(text)
}

/// The same of a text that may be missing.
pub open spec fn is_optional_text(text: Option<String>, maximum: nat) -> bool {
    text matches Some(t) ==> is_declared_text(t@, maximum, true)
}

fn declared_text(text: &str, maximum: usize, allow_empty: bool) -> (r: bool)
    ensures
        r == is_declared_text(text@, maximum as nat, allow_empty),
{
    let bytes = length_in_bytes(text);
    bytes <= maximum && (allow_empty || bytes > 0) && trimmed(text) && !contains_control(text)
}

fn declared_optional(text: &Option<String>, maximum: usize) -> (r: bool)
    ensures
        r == is_optional_text(*text, maximum as nat),
{
    match text {
        Some(text) => declared_text(text.as_str(), maximum, true),
        None => true,
    }
}

/// What is known of the newest release of a client can be shown.
pub open spec fn is_release(release: RequestProfileRelease) -> bool {
    let maximum = MAXIMUM_PRESENTATION_TEXT_BYTES as nat;
    &&& is_optional_text(release.latest_version, maximum)
    &&& is_optional_text(release.latest_build, maximum)
    &&& is_optional_text(release.minimum_system_version, maximum)
    &&& is_optional_text(release.hardware_requirements, maximum)
    &&& is_optional_text(release.error, maximum)
    &&& release.download_url matches Some(url) ==> is_declared_text(url@, maximum, false)
        && is_web_address(url@)
    &&& is_optional_moment(release.checked_at_ms)
    &&& is_optional_moment(release.published_at_ms)
}

/// Something that is said of a client can be shown.
pub open spec fn is_attribute(attribute: RequestProfileAttribute) -> bool {
    is_declared_text(attribute.label@, MAXIMUM_LABEL_BYTES as nat, false) && is_declared_text(
        attribute.value@,
        MAXIMUM_PRESENTATION_TEXT_BYTES as nat,
        true,
    )
}

/// How a client presents itself can be shown.
pub open spec fn is_presentation(value: RequestProfilePresentation) -> bool {
    let maximum = MAXIMUM_PRESENTATION_TEXT_BYTES as nat;
    &&& is_declared_text(value.product@, maximum, false)
    &&& is_declared_text(value.version@, maximum, false)
    &&& is_declared_text(value.target.os_type@, maximum, false)
    &&& is_declared_text(value.target.os_version@, maximum, false)
    &&& is_declared_text(value.target.arch@, maximum, false)
    &&& is_declared_text(value.target.terminal@, maximum, false)
    &&& is_declared_text(value.user_agent@, maximum, false)
    &&& is_optional_text(value.build, maximum)
    &&& value.attributes@.len() <= MAXIMUM_ATTRIBUTES
    &&& forall|i: int|
        0 <= i < value.attributes@.len() ==> is_attribute(#[trigger] value.attributes@[i])
    &&& is_optional_moment(value.verified_at_ms)
    &&& value.release matches Some(release) ==> is_release(release)
}

fn valid_time(ms: Option<i64>) -> (r: bool)
    ensures
        r == is_optional_moment(ms),
{
    match ms {
        Some(ms) => is_timestamp(ms),
        None => true,
    }
}

fn valid_release(release: &RequestProfileRelease) -> (r: bool)
    ensures
        r == is_release(*release),
{
    let url = match &release.download_url {
        Some(url) => declared_text(url.as_str(), MAXIMUM_PRESENTATION_TEXT_BYTES, false)
            && web_address(url.as_str()),
        None => true,
    };
    declared_optional(&release.latest_version, MAXIMUM_PRESENTATION_TEXT_BYTES)
        && declared_optional(&release.latest_build, MAXIMUM_PRESENTATION_TEXT_BYTES)
        && declared_optional(&release.minimum_system_version, MAXIMUM_PRESENTATION_TEXT_BYTES)
        && declared_optional(&release.hardware_requirements, MAXIMUM_PRESENTATION_TEXT_BYTES)
        && declared_optional(&release.error, MAXIMUM_PRESENTATION_TEXT_BYTES) && url && valid_time(
        release.checked_at_ms,
    ) && valid_time(release.published_at_ms)
}

fn valid_attributes(attributes: &Vec<RequestProfileAttribute>) -> (r: bool)
    ensures
        r == (attributes@.len() <= MAXIMUM_ATTRIBUTES && forall|i: int|
            0 <= i < attributes@.len() ==> is_attribute(#[trigger] attributes@[i])),
{
    if attributes.len() > MAXIMUM_ATTRIBUTES {
        return false;
    }
    for i in 0..attributes.len()
        invariant
            forall|j: int| 0 <= j < i ==> is_attribute(#[trigger] attributes@[j]),
    {
        if !declared_text(attributes[i].label.as_str(), MAXIMUM_LABEL_BYTES, false)
            || !declared_text(
            attributes[i].value.as_str(),
            MAXIMUM_PRESENTATION_TEXT_BYTES,
            true,
        ) {
            assert(!is_attribute(attributes@[i as int]));
            return false;
        }
    }
    true
}

fn valid_presentation(value: &RequestProfilePresentation) -> (r: bool)
    ensures
        r == is_presentation(*value),
{
    let release = match &value.release {
        Some(release) => valid_release(release),
        None => true,
    };
    declared_text(value.product.as_str(), MAXIMUM_PRESENTATION_TEXT_BYTES, false) && declared_text(
        value.version.as_str(),
        MAXIMUM_PRESENTATION_TEXT_BYTES,
        false,
    ) && declared_text(value.target.os_type.as_str(), MAXIMUM_PRESENTATION_TEXT_BYTES, false)
        && declared_text(value.target.os_version.as_str(), MAXIMUM_PRESENTATION_TEXT_BYTES, false)
        && declared_text(value.target.arch.as_str(), MAXIMUM_PRESENTATION_TEXT_BYTES, false)
        && declared_text(value.target.terminal.as_str(), MAXIMUM_PRESENTATION_TEXT_BYTES, false)
        && declared_text(value.user_agent.as_str(), MAXIMUM_PRESENTATION_TEXT_BYTES, false)
        && declared_optional(&value.build, MAXIMUM_PRESENTATION_TEXT_BYTES) && valid_attributes(
        &value.attributes,
    ) && valid_time(value.verified_at_ms) && release
}

/// A configuration as a document.
pub open spec fn configuration_document(configuration: Vec<(String, Json)>) -> JsonView {
    JsonView::Object(members_view(configuration@))
}

/// A configuration is not too large.
pub open spec fn is_document(configuration: Vec<(String, Json)>) -> bool {
    fits(configuration_document(configuration), MAXIMUM_DOCUMENT_BYTES as nat)
}

fn valid_document(configuration: &Vec<(String, Json)>) -> (r: bool)
    ensures
        r == is_document(*configuration),
{
    within(&Json::Object(copy_members(configuration)), MAXIMUM_DOCUMENT_BYTES)
}

/// Two configurations say the same.
pub open spec fn same_configuration(a: Vec<(String, Json)>, b: Vec<(String, Json)>) -> bool {
    same_document(configuration_document(a), configuration_document(b))
}

/// A client that can be chosen.
pub open spec fn is_option(option: RequestProfileOption) -> bool {
    &&& is_declared_text(option.id@, MAXIMUM_ID_BYTES as nat, false)
    &&& is_identifier(option.id@)
    &&& is_declared_text(option.label@, MAXIMUM_LABEL_BYTES as nat, false)
    &&& is_optional_text(option.description, MAXIMUM_DESCRIPTION_BYTES as nat)
    &&& is_document(option.configuration)
    &&& is_document(option.resolved)
    &&& is_presentation(option.presentation)
}

fn valid_option(option: &RequestProfileOption) -> (r: bool)
    ensures
        r == is_option(*option),
{
    declared_text(option.id.as_str(), MAXIMUM_ID_BYTES, false) && identifier(option.id.as_str())
        && declared_text(option.label.as_str(), MAXIMUM_LABEL_BYTES, false) && declared_optional(
        &option.description,
        MAXIMUM_DESCRIPTION_BYTES,
    ) && valid_document(&option.configuration) && valid_document(&option.resolved)
        && valid_presentation(&option.presentation)
}

/// Two clients that can be told apart.
pub open spec fn are_apart(a: RequestProfileOption, b: RequestProfileOption) -> bool {
    a.id@ != b.id@ && !same_configuration(a.configuration, b.configuration)
}

/// The clients that can be chosen are valid and can be told apart.
pub open spec fn are_options(options: Seq<RequestProfileOption>) -> bool {
    &&& 0 < options.len() <= MAXIMUM_OPTIONS
    &&& forall|i: int| 0 <= i < options.len() ==> is_option(#[trigger] options[i])
    &&& forall|i: int, j: int|
        0 <= i < j < options.len() ==> are_apart(#[trigger] options[i], #[trigger] options[j])
}

/// A place is that of the only client with a configuration.
pub open spec fn is_only(
    options: Seq<RequestProfileOption>,
    configuration: Vec<(String, Json)>,
    place: int,
) -> bool {
    0 <= place < options.len() && forall|i: int|
        0 <= i < options.len() ==> (same_configuration(
            (#[trigger] options[i]).configuration,
            configuration,
        ) <==> i == place)
}

/// A declaration of clients to choose from: one of them is the default.
pub open spec fn is_descriptor(descriptor: RequestProfileDescriptor) -> bool {
    &&& are_options(descriptor.options@)
    &&& is_document(descriptor.default_configuration)
    &&& exists|place: int|
        #[trigger] is_only(descriptor.options@, descriptor.default_configuration, place)
}

fn valid_options(options: &Vec<RequestProfileOption>) -> (r: bool)
    ensures
        r == are_options(options@),
{
    if options.len() == 0 || options.len() > MAXIMUM_OPTIONS {
        return false;
    }
    for i in 0..options.len()
        invariant
            forall|j: int| 0 <= j < i ==> is_option(#[trigger] options@[j]),
            forall|j: int, k: int|
                0 <= j < k < i ==> are_apart(#[trigger] options@[j], #[trigger] options@[k]),
    {
        if !valid_option(&options[i]) {
            return false;
        }
        for j in 0..i
            invariant
                i < options@.len(),
                forall|k: int| 0 <= k < j ==> are_apart(#[trigger] options@[k], options@[i as int]),
        {
            if same(options[j].id.as_str(), options[i].id.as_str()) || members_eq(
                &options[j].configuration,
                &options[i].configuration,
            ) {
                assert(!are_apart(options@[j as int], options@[i as int]));
                return false;
            }
        }
    }
    true
}

/// The place of the only client with a configuration.
fn only_place(options: &Vec<RequestProfileOption>, configuration: &Vec<(String, Json)>) -> (place:
    Option<usize>)
    ensures
        match place {
            Some(k) => is_only(options@, *configuration, k as int),
            None => !exists|k: int| #[trigger] is_only(options@, *configuration, k),
        },
{
    let mut found: Option<usize> = None;
    for i in 0..options.len()
        invariant
            match found {
                Some(k) => k < i && forall|j: int|
                    0 <= j < i ==> (same_configuration(
                        (#[trigger] options@[j]).configuration,
                        *configuration,
                    ) <==> j == k),
                None => forall|j: int|
                    0 <= j < i ==> !same_configuration(
                        (#[trigger] options@[j]).configuration,
                        *configuration,
                    ),
            },
    {
        if members_eq(&options[i].configuration, configuration) {
            match found {
                Some(k) => {
                    proof {
                        let first = k as int;
                        let second = i as int;
                        assert(same_configuration(options@[first].configuration, *configuration));
                        assert(same_configuration(options@[second].configuration, *configuration));
                        assert forall|p: int| !(#[trigger] is_only(options@, *configuration, p)) by {
                            if is_only(options@, *configuration, p) {
                                assert(options@[first] == options@[first]);
                                assert(first == p);
                                assert(second == p);
                            }
                        }
                    }
                    return None;
                },
                None => {
                    found = Some(i);
                },
            }
        }
    }
    proof {
        if found is None {
            assert forall|p: int| !(#[trigger] is_only(options@, *configuration, p)) by {
                if is_only(options@, *configuration, p) {
                    assert(same_configuration(options@[p].configuration, *configuration));
                }
            }
        }
    }
    found
}

/// The clients to choose from.
pub struct ProfileDirectory {
    pub provider: String,
    pub sequence: u64,
    pub fingerprint: [u8; 32],
    pub default: usize,
    pub options: Vec<RequestProfileOption>,
}

/// A declaration was refused.
pub open spec fn descriptor_refused() -> AdminError {
    refused(AdminReason::RequestProfiles)
}

fn invalid_descriptor() -> (error: AdminError)
    ensures
        error == descriptor_refused(),
{
    AdminError::invalid(AdminReason::RequestProfiles)
}

/// A directory holds what a declaration says.
pub open spec fn is_directory_of(
    directory: ProfileDirectory,
    descriptor: RequestProfileDescriptor,
    encoded: Seq<u8>,
    provider: Seq<char>,
) -> bool {
    &&& directory.provider@ == provider
    &&& directory.fingerprint@ == sha256(encoded)
    &&& directory.options == descriptor.options
    &&& is_only(
        descriptor.options@,
        descriptor.default_configuration,
        directory.default as int,
    )
}

/// A newer list that may be taken.
pub open spec fn is_refresh(
    refresh: RequestProfileRefresh,
    encoded_bytes: usize,
    limits: RequestProfileLimits,
) -> bool {
    &&& 0 < refresh.sequence <= limits.maximum_sequence
    &&& encoded_bytes <= limits.maximum_bytes
    &&& is_descriptor(refresh.profiles)
}

impl ProfileDirectory {
    /// The clients are valid and can be told apart, and one of them is the default.
    pub open spec fn well_formed(&self) -> bool {
        are_options(self.options@) && self.default < self.options@.len()
    }

    /// The configuration of the default client.
    pub open spec fn default_document(&self) -> JsonView {
        configuration_document(self.options@[self.default as int].configuration)
    }

    /// The directory of a declaration. `encoded` is the declaration as it is written down.
    pub fn prepare_descriptor(
        descriptor: RequestProfileDescriptor,
        encoded: &[u8],
        provider: &str,
    ) -> (result: Result<Self, AdminError>)
        ensures
            match result {
                Ok(directory) => is_descriptor(descriptor) && directory.well_formed()
                    && directory.sequence == 0 && is_directory_of(
                    directory,
                    descriptor,
                    encoded@,
                    provider@,
                ),
                Err(error) => !is_descriptor(descriptor) && error == descriptor_refused(),
            },
    {
        if !valid_options(&descriptor.options) || !valid_document(
            &descriptor.default_configuration,
        ) {
            return Err(invalid_descriptor());
        }
        let default = match only_place(&descriptor.options, &descriptor.default_configuration) {
            Some(default) => default,
            None => return Err(invalid_descriptor()),
        };
        Ok(
            ProfileDirectory {
                provider: provider.to_owned(),
                sequence: 0,
                fingerprint: digest(encoded),
                default,
                options: descriptor.options,
            },
        )
    }

    /// The directory of a newer list. `encoded_bytes` is how many bytes the list takes when it is
    /// written down, and `encoded` the declaration in it as it is written down.
    pub fn prepare_refresh(
        refresh: RequestProfileRefresh,
        encoded_bytes: usize,
        encoded: &[u8],
        limits: RequestProfileLimits,
        provider: &str,
    ) -> (result: Result<Self, AdminError>)
        ensures
            match result {
                Ok(directory) => is_refresh(refresh, encoded_bytes, limits)
                    && directory.well_formed() && directory.sequence == refresh.sequence
                    && is_directory_of(directory, refresh.profiles, encoded@, provider@),
                Err(error) => !is_refresh(refresh, encoded_bytes, limits) && error
                    == descriptor_refused(),
            },
    {
        if refresh.sequence == 0 || refresh.sequence > limits.maximum_sequence || encoded_bytes
            > limits.maximum_bytes {
            return Err(invalid_descriptor());
        }
        let sequence = refresh.sequence;
        match ProfileDirectory::prepare_descriptor(refresh.profiles, encoded, provider) {
            Ok(directory) => Ok(
                ProfileDirectory {
                    provider: directory.provider,
                    sequence,
                    fingerprint: directory.fingerprint,
                    default: directory.default,
                    options: directory.options,
                },
            ),
            Err(error) => Err(error),
        }
    }

    /// A client of another directory is still there, chosen as before.
    pub open spec fn keeps(&self, option: RequestProfileOption) -> bool {
        exists|i: int|
            0 <= i < self.options@.len() && (#[trigger] self.options@[i]).id@ == option.id@
                && same_configuration(self.options@[i].configuration, option.configuration)
    }

    /// A directory that may follow another: it has the same default and the same clients to choose,
    /// and is the other where it has the same number.
    pub open spec fn follows(&self, current: &Self) -> bool {
        &&& same_document(self.default_document(), current.default_document())
        &&& self.options@.len() == current.options@.len()
        &&& forall|i: int|
            0 <= i < current.options@.len() ==> self.keeps(#[trigger] current.options@[i])
        &&& self.sequence == current.sequence ==> self.fingerprint@ == current.fingerprint@
    }

    fn kept(&self, option: &RequestProfileOption) -> (r: bool)
        ensures
            r == self.keeps(*option),
    {
        for i in 0..self.options.len()
            invariant
                forall|j: int|
                    0 <= j < i ==> !((#[trigger] self.options@[j]).id@ == option.id@
                        && same_configuration(
                        self.options@[j].configuration,
                        option.configuration,
                    )),
        {
            if same(self.options[i].id.as_str(), option.id.as_str()) && members_eq(
                &self.options[i].configuration,
                &option.configuration,
            ) {
                return true;
            }
        }
        false
    }

    pub fn validate_successor(&self, current: &Self) -> (result: Result<(), AdminError>)
        requires
            self.well_formed(),
            current.well_formed(),
        ensures
            result == (if self.follows(current) {
                Ok::<(), AdminError>(())
            } else {
                Err(descriptor_refused())
            }),
    {
        if !members_eq(
            &self.options[self.default].configuration,
            &current.options[current.default].configuration,
        ) || self.options.len() != current.options.len() {
            return Err(invalid_descriptor());
        }
        for i in 0..current.options.len()
            invariant
                forall|j: int| 0 <= j < i ==> self.keeps(#[trigger] current.options@[j]),
        {
            if !self.kept(&current.options[i]) {
                assert(!self.keeps(current.options@[i as int]));
                return Err(invalid_descriptor());
            }
        }
        if self.sequence == current.sequence && !same_digest(
            &self.fingerprint,
            &current.fingerprint,
        ) {
            return Err(invalid_descriptor());
        }
        Ok(())
    }

    /// Takes a newer directory in place of this one.
    pub fn replace(&mut self, next: ProfileDirectory) -> (result: Result<(), AdminError>)
        requires
            old(self).well_formed(),
            next.well_formed(),
        ensures
            final(self).well_formed(),
            final(self).replaces(old(self), next, result),
    {
        match next.validate_successor(self) {
            Ok(()) => {},
            Err(error) => return Err(error),
        }
        if next.sequence > self.sequence {
            *self = next;
        }
        Ok(())
    }

    /// Takes a newer list in place of this one.
    pub fn apply_refresh(
        &mut self,
        refresh: RequestProfileRefresh,
        encoded_bytes: usize,
        encoded: &[u8],
        limits: RequestProfileLimits,
    ) -> (result: Result<(), AdminError>)
        requires
            old(self).well_formed(),
        ensures
            final(self).well_formed(),
            final(self).sequence >= old(self).sequence,
            !is_refresh(refresh, encoded_bytes, limits) ==> *final(self) == *old(self) && result
                == Err::<(), AdminError>(descriptor_refused()),
            is_refresh(refresh, encoded_bytes, limits) ==> exists|next: ProfileDirectory|
                {
                    &&& next.well_formed()
                    &&& next.sequence == refresh.sequence
                    &&& #[trigger] is_directory_of(
                        next,
                        refresh.profiles,
                        encoded@,
                        old(self).provider@,
                    )
                    &&& if next.follows(old(self)) {
                        result is Ok && *final(self) == (if next.sequence > old(self).sequence {
                            next
                        } else {
                            *old(self)
                        })
                    } else {
                        result == Err::<(), AdminError>(descriptor_refused()) && *final(self)
                            == *old(self)
                    }
                },
    {
        match ProfileDirectory::prepare_refresh(
            refresh,
            encoded_bytes,
            encoded,
            limits,
            self.provider.as_str(),
        ) {
            Ok(next) => {
                let ghost candidate = next;
                let result = self.replace(next);
                assert(is_directory_of(
                    candidate,
                    refresh.profiles,
                    encoded@,
                    old(self).provider@,
                ));
                result
            },
            Err(error) => Err(error),
        }
    }

    /// A place is that of the first client with a configuration.
    pub open spec fn is_first(&self, configuration: Vec<(String, Json)>, place: int) -> bool {
        &&& 0 <= place < self.options@.len()
        &&& same_configuration(self.options@[place].configuration, configuration)
        &&& forall|i: int|
            0 <= i < place ==> !same_configuration(
                (#[trigger] self.options@[i]).configuration,
                configuration,
            )
    }

    /// Some client has a configuration.
    pub open spec fn offers(&self, configuration: Vec<(String, Json)>) -> bool {
        exists|i: int|
            0 <= i < self.options@.len() && same_configuration(
                (#[trigger] self.options@[i]).configuration,
                configuration,
            )
    }

    fn find(&self, configuration: &Vec<(String, Json)>) -> (place: Option<usize>)
        ensures
            match place {
                Some(k) => self.is_first(*configuration, k as int) && self.offers(*configuration),
                None => !self.offers(*configuration),
            },
    {
        for i in 0..self.options.len()
            invariant
                forall|j: int|
                    0 <= j < i ==> !same_configuration(
                        (#[trigger] self.options@[j]).configuration,
                        *configuration,
                    ),
        {
            if members_eq(&self.options[i].configuration, configuration) {
                assert(same_configuration(self.options@[i as int].configuration, *configuration));
                return Some(i);
            }
        }
        None
    }

    /// What a chosen client stands for.
    pub fn resolve(&self, configuration: &Vec<(String, Json)>) -> (result: Result<
        Vec<(String, Json)>,
        ProviderError,
    >)
        ensures
            self.is_resolved(*configuration, result),
    {
        match self.find(configuration) {
            Some(k) => {
                assert(self.is_first(*configuration, k as int));
                Ok(copy_members(&self.options[k].resolved))
            },
            None => Err(invalid_request_profile()),
        }
    }

    /// What the default client stands for.
    pub fn default_resolved(&self) -> (resolved: Vec<(String, Json)>)
        requires
            self.well_formed(),
        ensures
            members_view(resolved@) == members_view(
                self.options@[self.default as int].resolved@,
            ),
    {
        copy_members(&self.options[self.default].resolved)
    }

    /// How the default client is chosen.
    pub fn default_configuration(&self) -> (configuration: Vec<(String, Json)>)
        requires
            self.well_formed(),
        ensures
            configuration_document(configuration) == self.default_document(),
    {
        copy_members(&self.options[self.default].configuration)
    }

    /// How a client is presented: the one with a configuration, or the default one.
    pub fn dashboard(&self, configuration: Option<&Vec<(String, Json)>>) -> (presentation: Option<
        &RequestProfilePresentation,
    >)
        requires
            self.well_formed(),
        ensures
            self.is_presented(configuration, presentation),
    {
        match configuration {
            None => Some(&self.options[self.default].presentation),
            Some(configuration) => match self.find(configuration) {
                Some(k) => {
                    assert(self.is_first(*configuration, k as int));
                    Some(&self.options[k].presentation)
                },
                None => None,
            },
        }
    }
}

pub fn invalid_request_profile() -> (error: ProviderError)
    ensures
        error == unsent_error(ProviderErrorKind::InvalidRequest),
{
    ProviderError::unsent(ProviderErrorKind::InvalidRequest)
}

/// A newer list does not take away what people have chosen: whatever was offered is offered still,
/// and the default stays what it was.
pub proof fn refresh_keeps_choices(
    current: ProfileDirectory,
    next: ProfileDirectory,
    choice: Vec<(String, Json)>,
    place: int,
)
    requires
        next.follows(&current),
        0 <= place < current.options@.len(),
        current.options@[place].configuration == choice,
    ensures
        next.offers(choice),
        same_document(next.default_document(), current.default_document()),
{
    assert(next.keeps(current.options@[place]));
}

/// The document of a client that can be chosen.
pub open spec fn preset_document(option: RequestProfileOption) -> JsonView {
    JsonView::Object(
        Map::empty().insert("id"@, JsonView::Text(option.id@)).insert(
            "label"@,
            JsonView::Text(option.label@),
        ).insert("description"@, text_or_null(text_of(option.description))).insert(
            "configuration"@,
            configuration_document(option.configuration),
        ),
    )
}

/// The document of the clients that can be chosen.
pub open spec fn options_document(directory: ProfileDirectory) -> JsonView {
    JsonView::Object(
        Map::empty().insert(
            "presets"@,
            JsonView::Array(
                Seq::new(
                    directory.options@.len(),
                    |i: int| preset_document(directory.options@[i]),
                ),
            ),
        ).insert("defaultConfiguration"@, directory.default_document()),
    )
}

/// The document of a point in time that may be missing.
pub open spec fn time_document(ms: Option<i64>) -> JsonView {
    match ms {
        Some(ms) => JsonView::Text(moment_text(ms)),
        None => JsonView::Null,
    }
}

/// The document of a number that may be missing.
pub open spec fn size_document(size: Option<u64>) -> JsonView {
    match size {
        Some(n) => JsonView::Number(NumberView::Unsigned(n)),
        None => JsonView::Null,
    }
}

/// The name under which the state of a release is shown.
pub open spec fn status_name(status: DesktopReleaseStatus) -> Seq<char> {
    match status {
        DesktopReleaseStatus::Unchecked => "unchecked"@,
        DesktopReleaseStatus::Current => "current"@,
        DesktopReleaseStatus::UpdateAvailable => "update_available"@,
        DesktopReleaseStatus::Failed => "failed"@,
    }
}

/// The document of a release.
pub open spec fn release_document(release: RequestProfileRelease) -> JsonView {
    JsonView::Object(
        Map::empty().insert("status"@, JsonView::Text(status_name(release.status))).insert(
            "checkedAt"@,
            time_document(release.checked_at_ms),
        ).insert("latestVersion"@, text_or_null(text_of(release.latest_version))).insert(
            "latestBuild"@,
            text_or_null(text_of(release.latest_build)),
        ).insert("publishedAt"@, time_document(release.published_at_ms)).insert(
            "minimumSystemVersion"@,
            text_or_null(text_of(release.minimum_system_version)),
        ).insert(
            "hardwareRequirements"@,
            text_or_null(text_of(release.hardware_requirements)),
        ).insert("downloadUrl"@, text_or_null(text_of(release.download_url))).insert(
            "downloadSize"@,
            size_document(release.download_size),
        ).insert("signaturePresent"@, JsonView::Bool(release.signature_present)).insert(
            "error"@,
            text_or_null(text_of(release.error)),
        ),
    )
}

/// The document of something that is said of a client.
pub open spec fn attribute_document(attribute: RequestProfileAttribute) -> JsonView {
    JsonView::Object(
        Map::empty().insert("label"@, JsonView::Text(attribute.label@)).insert(
            "value"@,
            JsonView::Text(attribute.value@),
        ),
    )
}

/// The document of the machine that a client runs on.
pub open spec fn target_document(target: RequestProfileTarget) -> JsonView {
    JsonView::Object(
        Map::empty().insert("osType"@, JsonView::Text(target.os_type@)).insert(
            "osVersion"@,
            JsonView::Text(target.os_version@),
        ).insert("arch"@, JsonView::Text(target.arch@)).insert(
            "terminal"@,
            JsonView::Text(target.terminal@),
        ),
    )
}

/// The document in which a client is shown.
pub open spec fn preview_document(option: RequestProfileOption) -> JsonView {
    let shown = option.presentation;
    JsonView::Object(
        Map::empty().insert("configuration"@, configuration_document(option.configuration)).insert(
            "product"@,
            JsonView::Text(shown.product@),
        ).insert("version"@, JsonView::Text(shown.version@)).insert(
            "build"@,
            text_or_null(text_of(shown.build)),
        ).insert("target"@, target_document(shown.target)).insert(
            "userAgent"@,
            JsonView::Text(shown.user_agent@),
        ).insert(
            "attributes"@,
            JsonView::Array(
                Seq::new(
                    shown.attributes@.len(),
                    |i: int| attribute_document(shown.attributes@[i]),
                ),
            ),
        ).insert("verifiedAt"@, time_document(shown.verified_at_ms)).insert(
            "release"@,
            match shown.release {
                Some(release) => release_document(release),
                None => JsonView::Null,
            },
        ),
    )
}

fn write_time(ms: Option<i64>) -> (json: Json)
    requires
        is_optional_moment(ms),
    ensures
        json@ == time_document(ms),
{
    match ms {
        Some(ms) => Json::Text(write_moment(ms)),
        None => Json::Null,
    }
}

fn write_preset(option: &RequestProfileOption) -> (json: Json)
    ensures
        json@ == preset_document(*option),
{
    let mut members: Vec<(String, Json)> = Vec::new();
    put(&mut members, "id", Json::text(option.id.as_str()));
    put(&mut members, "label", Json::text(option.label.as_str()));
    put(&mut members, "description", optional_json(&option.description));
    put(&mut members, "configuration", Json::Object(copy_members(&option.configuration)));
    Json::Object(members)
}

fn write_release(release: &RequestProfileRelease) -> (json: Json)
    requires
        is_release(*release),
    ensures
        json@ == release_document(*release),
{
    let mut members: Vec<(String, Json)> = Vec::new();
    let status = match release.status {
        DesktopReleaseStatus::Unchecked => "unchecked",
        DesktopReleaseStatus::Current => "current",
        DesktopReleaseStatus::UpdateAvailable => "update_available",
        DesktopReleaseStatus::Failed => "failed",
    };
    put(&mut members, "status", Json::text(status));
    put(&mut members, "checkedAt", write_time(release.checked_at_ms));
    put(&mut members, "latestVersion", optional_json(&release.latest_version));
    put(&mut members, "latestBuild", optional_json(&release.latest_build));
    put(&mut members, "publishedAt", write_time(release.published_at_ms));
    put(&mut members, "minimumSystemVersion", optional_json(&release.minimum_system_version));
    put(&mut members, "hardwareRequirements", optional_json(&release.hardware_requirements));
    put(&mut members, "downloadUrl", optional_json(&release.download_url));
    put(
        &mut members,
        "downloadSize",
        match release.download_size {
            Some(n) => Json::unsigned(n),
            None => Json::Null,
        },
    );
    put(&mut members, "signaturePresent", Json::Bool(release.signature_present));
    put(&mut members, "error", optional_json(&release.error));
    Json::Object(members)
}

fn write_target(target: &RequestProfileTarget) -> (json: Json)
    ensures
        json@ == target_document(*target),
{
    let mut members: Vec<(String, Json)> = Vec::new();
    put(&mut members, "osType", Json::text(target.os_type.as_str()));
    put(&mut members, "osVersion", Json::text(target.os_version.as_str()));
    put(&mut members, "arch", Json::text(target.arch.as_str()));
    put(&mut members, "terminal", Json::text(target.terminal.as_str()));
    Json::Object(members)
}

fn write_attributes(attributes: &Vec<RequestProfileAttribute>) -> (json: Json)
    ensures
        json@ == JsonView::Array(
            Seq::new(attributes@.len(), |i: int| attribute_document(attributes@[i])),
        ),
{
    let mut items: Vec<Json> = Vec::new();
    for i in 0..attributes.len()
        invariant
            items@.len() == i,
            forall|j: int| 0 <= j < i ==> (#[trigger] items@[j])@ == attribute_document(attributes@[j]),
    {
        let mut members: Vec<(String, Json)> = Vec::new();
        put(&mut members, "label", Json::text(attributes[i].label.as_str()));
        put(&mut members, "value", Json::text(attributes[i].value.as_str()));
        items.push(Json::Object(members));
    }
    proof {
        lemma_items_view(items@);
        assert(items_view(items@) =~= Seq::new(
            attributes@.len(),
            |i: int| attribute_document(attributes@[i]),
        ));
    }
    Json::Array(items)
}

impl ProfileDirectory {
    /// The clients that can be chosen, as a document.
    pub fn options(&self) -> (json: Json)
        requires
            self.well_formed(),
        ensures
            json@ == options_document(*self),
    {
        let mut presets: Vec<Json> = Vec::new();
        for i in 0..self.options.len()
            invariant
                presets@.len() == i,
                forall|j: int|
                    0 <= j < i ==> (#[trigger] presets@[j])@ == preset_document(self.options@[j]),
        {
            presets.push(write_preset(&self.options[i]));
        }
        proof {
            lemma_items_view(presets@);
            assert(items_view(presets@) =~= Seq::new(
                self.options@.len(),
                |i: int| preset_document(self.options@[i]),
            ));
        }
        let mut members: Vec<(String, Json)> = Vec::new();
        put(&mut members, "presets", Json::Array(presets));
        put(
            &mut members,
            "defaultConfiguration",
            Json::Object(copy_members(&self.options[self.default].configuration)),
        );
        Json::Object(members)
    }

    /// The document in which a chosen client is shown.
    pub fn preview(&self, configuration: &Vec<(String, Json)>) -> (result: Result<
        Json,
        ProviderAdminError,
    >)
        requires
            self.well_formed(),
        ensures
            self.is_previewed(*configuration, result),
    {
        let k = match self.find(configuration) {
            Some(k) => k,
            None => return Err(invalid()),
        };
        let option = &self.options[k];
        let shown = &option.presentation;
        assert(is_option(self.options@[k as int]));
        let mut members: Vec<(String, Json)> = Vec::new();
        put(&mut members, "configuration", Json::Object(copy_members(&option.configuration)));
        put(&mut members, "product", Json::text(shown.product.as_str()));
        put(&mut members, "version", Json::text(shown.version.as_str()));
        put(&mut members, "build", optional_json(&shown.build));
        put(&mut members, "target", write_target(&shown.target));
        put(&mut members, "userAgent", Json::text(shown.user_agent.as_str()));
        put(&mut members, "attributes", write_attributes(&shown.attributes));
        put(&mut members, "verifiedAt", write_time(shown.verified_at_ms));
        put(
            &mut members,
            "release",
            match &shown.release {
                Some(release) => write_release(release),
                None => Json::Null,
            },
        );
        assert(self.is_first(*configuration, k as int));
        Ok(Json::Object(members))
    }
}

/// A text in a declaration is at most as long as it may be, holds no control code, and neither begins
/// nor ends with white space; it is empty only where it may be.
pub proof fn declared_texts(text: Seq<char>, maximum: nat, allow_empty: bool)
    ensures
        is_declared_text(text, maximum, allow_empty) <==> {
            &&& byte_len(text) <= maximum
            &&& !allow_empty ==> byte_len(text) >= 1
            &&& text.len() > 0 ==> !crate::text::is_space(text[0]) && !crate::text::is_space(
                text[text.len() - 1],
            )
            &&& forall|i: int| 0 <= i < text.len() ==> !crate::text::is_control(#[trigger] text[i])
        },
{
}

/// What is known of a release can be shown exactly if its texts have at most 4096 bytes each, it is
/// found at a web address, if at all, and its points in time are those of the calendar.
pub proof fn releases_in_order(release: RequestProfileRelease)
    ensures
        is_release(release) <==> {
            &&& release.latest_version is Some ==> is_declared_text(release.latest_version->0@, 4096, true)
            &&& release.latest_build is Some ==> is_declared_text(release.latest_build->0@, 4096, true)
            &&& release.minimum_system_version is Some ==> is_declared_text(release.minimum_system_version->0@, 4096, true)
            &&& release.hardware_requirements is Some ==> is_declared_text(release.hardware_requirements->0@, 4096, true)
            &&& release.error is Some ==> is_declared_text(release.error->0@, 4096, true)
            &&& release.download_url is Some ==> is_declared_text(release.download_url->0@, 4096, false)
                && is_web_address(release.download_url->0@)
            &&& is_optional_moment(release.checked_at_ms)
            &&& is_optional_moment(release.published_at_ms)
        },
{
}

/// How a client presents itself can be shown exactly if every text of it says something in at most 4096
/// bytes, at most 64 things are said of it besides, each under a label of at most 128 bytes, and what
/// is known of its release can be shown.
pub proof fn presentations_in_order(value: RequestProfilePresentation)
    ensures
        is_presentation(value) <==> {
            &&& is_declared_text(value.product@, 4096, false)
            &&& is_declared_text(value.version@, 4096, false)
            &&& is_declared_text(value.target.os_type@, 4096, false)
            &&& is_declared_text(value.target.os_version@, 4096, false)
            &&& is_declared_text(value.target.arch@, 4096, false)
            &&& is_declared_text(value.target.terminal@, 4096, false)
            &&& is_declared_text(value.user_agent@, 4096, false)
            &&& value.build is Some ==> is_declared_text(value.build->0@, 4096, true)
            &&& value.attributes@.len() <= 64
            &&& forall|i: int|
                0 <= i < value.attributes@.len() ==> is_declared_text(
                    (#[trigger] value.attributes@[i]).label@,
                    128,
                    false,
                ) && is_declared_text(value.attributes@[i].value@, 4096, true)
            &&& is_optional_moment(value.verified_at_ms)
            &&& value.release is Some ==> is_release(value.release->0)
        },
{
    assert forall|i: int| 0 <= i < value.attributes@.len() implies is_attribute(
        #[trigger] value.attributes@[i],
    ) == (is_declared_text(value.attributes@[i].label@, 128, false) && is_declared_text(
        value.attributes@[i].value@,
        4096,
        true,
    )) by {}
}

/// A client can be chosen exactly if its name is an identifier of at most 64 bytes, its label has at
/// most 128 and its description at most 1024, how it is chosen and what it stands for take at most
/// 65536 each, and it can be shown.
pub proof fn options_in_order(option: RequestProfileOption)
    ensures
        is_option(option) <==> {
            &&& is_declared_text(option.id@, 64, false)
            &&& is_identifier(option.id@)
            &&& is_declared_text(option.label@, 128, false)
            &&& option.description is Some ==> is_declared_text(option.description->0@, 1024, true)
            &&& fits(JsonView::Object(members_view(option.configuration@)), 65536)
            &&& fits(JsonView::Object(members_view(option.resolved@)), 65536)
            &&& is_presentation(option.presentation)
        },
{
}

/// The clients to choose from are in order exactly if there are 1 to 128, each can be chosen, and no
/// two have one name or are chosen alike.
pub proof fn clients_are_told_apart(options: Seq<RequestProfileOption>)
    ensures
        are_options(options) <==> {
            &&& 1 <= options.len() <= 128
            &&& forall|i: int| 0 <= i < options.len() ==> is_option(#[trigger] options[i])
            &&& forall|i: int, j: int|
                0 <= i < j < options.len() ==> (#[trigger] options[i]).id@ != (
                #[trigger] options[j]).id@ && !same_document(
                    JsonView::Object(members_view(options[i].configuration@)),
                    JsonView::Object(members_view(options[j].configuration@)),
                )
        },
{
    assert forall|i: int, j: int| 0 <= i < j < options.len() implies are_apart(
        #[trigger] options[i],
        #[trigger] options[j],
    ) == (options[i].id@ != options[j].id@ && !same_document(
        JsonView::Object(members_view(options[i].configuration@)),
        JsonView::Object(members_view(options[j].configuration@)),
    )) by {}
}

/// A directory is that of a declaration: it has its clients, and its default is the one client that is
/// chosen as the declaration says.
pub proof fn directories_as_declared(
    directory: ProfileDirectory,
    descriptor: RequestProfileDescriptor,
    encoded: Seq<u8>,
    provider: Seq<char>,
    i: int,
)
    requires
        is_directory_of(directory, descriptor, encoded, provider),
        0 <= i < directory.options@.len(),
    ensures
        directory.provider@ == provider,
        directory.options == descriptor.options,
        directory.fingerprint@ == sha256(encoded),
        directory.default < directory.options@.len(),
        same_document(
            JsonView::Object(members_view(directory.options@[i].configuration@)),
            JsonView::Object(members_view(descriptor.default_configuration@)),
        ) <==> i == directory.default,
{
    assert(same_configuration(directory.options@[i].configuration, descriptor.default_configuration)
        <==> i == directory.default);
}

/// A newer list is taken exactly if its number is not zero and not beyond the last, it takes no more
/// bytes than it may, and it is in order.
pub proof fn refreshes_in_order(
    refresh: RequestProfileRefresh,
    encoded_bytes: usize,
    limits: RequestProfileLimits,
)
    ensures
        is_refresh(refresh, encoded_bytes, limits) <==> {
            &&& 1 <= refresh.sequence <= limits.maximum_sequence
            &&& encoded_bytes <= limits.maximum_bytes
            &&& is_descriptor(refresh.profiles)
        },
{
}

/// A list follows another only with as many clients, each under its name and chosen as before, and with
/// the same default; of two lists with one number the second is the first.
pub proof fn lists_that_follow(next: ProfileDirectory, current: ProfileDirectory, i: int)
    requires
        next.follows(&current),
        0 <= i < current.options@.len(),
    ensures
        next.options@.len() == current.options@.len(),
        exists|j: int|
            0 <= j < next.options@.len() && (#[trigger] next.options@[j]).id@
                == current.options@[i].id@ && same_document(
                JsonView::Object(members_view(next.options@[j].configuration@)),
                JsonView::Object(members_view(current.options@[i].configuration@)),
            ),
        next.sequence == current.sequence ==> next.fingerprint@ == current.fingerprint@,
        same_document(
            JsonView::Object(
                members_view(next.options@[next.default as int].configuration@),
            ),
            JsonView::Object(
                members_view(current.options@[current.default as int].configuration@),
            ),
        ),
{
    assert(next.keeps(current.options@[i]));
    let j = choose|j: int|
        0 <= j < next.options@.len() && (#[trigger] next.options@[j]).id@ == current.options@[i].id@
            && same_configuration(
            next.options@[j].configuration,
            current.options@[i].configuration,
        );
    assert(next.options@[j].id@ == current.options@[i].id@);
}

/// The first client that is chosen alike is the one that a configuration chooses, and one is chosen
/// exactly if one is offered.
pub proof fn first_choice_counts(
    directory: ProfileDirectory,
    configuration: Vec<(String, Json)>,
    a: int,
    b: int,
)
    ensures
        directory.is_first(configuration, a) && directory.is_first(configuration, b) ==> a == b,
        directory.is_first(configuration, a) ==> directory.offers(configuration),
        directory.is_first(configuration, a) ==> same_document(
            JsonView::Object(members_view(directory.options@[a].configuration@)),
            JsonView::Object(members_view(configuration@)),
        ),
        directory.offers(configuration) <==> exists|i: int|
            0 <= i < directory.options@.len() && same_document(
                JsonView::Object(members_view((#[trigger] directory.options@[i]).configuration@)),
                JsonView::Object(members_view(configuration@)),
            ),
{
    if directory.offers(configuration) {
        let i = choose|i: int|
            0 <= i < directory.options@.len() && same_configuration(
                (#[trigger] directory.options@[i]).configuration,
                configuration,
            );
        assert(same_document(
            JsonView::Object(members_view(directory.options@[i].configuration@)),
            JsonView::Object(members_view(configuration@)),
        ));
    }
    if exists|i: int|
        0 <= i < directory.options@.len() && same_document(
            JsonView::Object(members_view((#[trigger] directory.options@[i]).configuration@)),
            JsonView::Object(members_view(configuration@)),
        ) {
        let i = choose|i: int|
            0 <= i < directory.options@.len() && same_document(
                JsonView::Object(members_view((#[trigger] directory.options@[i]).configuration@)),
                JsonView::Object(members_view(configuration@)),
            );
        assert(same_configuration(directory.options@[i].configuration, configuration));
    }
}

/// The document of a client to choose says its name, its label, what describes it, and how it is chosen.
pub proof fn preset_document_says(option: RequestProfileOption)
    ensures
        preset_document(option) matches JsonView::Object(shown) && {
            &&& shown.dom() == set![
            "id"@,
            "label"@,
            "description"@,
            "configuration"@,
        ]
            &&& shown["id"@] == JsonView::Text(option.id@)
            &&& shown["label"@] == JsonView::Text(option.label@)
            &&& option.description is Some ==> shown["description"@] == JsonView::Text(option.description->0@)
            &&& option.description is None ==> shown["description"@] == JsonView::Null
            &&& shown["configuration"@] == JsonView::Object(members_view(option.configuration@))
        },
{
    reveal_strlit("id");
    reveal_strlit("label");
    reveal_strlit("description");
    reveal_strlit("configuration");
    assert("id"@.len() == 2);
    assert("label"@.len() == 5);
    assert("description"@.len() == 11);
    assert("configuration"@.len() == 13);
    let shown = preset_document(option)->Object_0;
    assert(shown.dom() =~= set![
            "id"@,
            "label"@,
            "description"@,
            "configuration"@,
        ]);
}

/// The document of the clients names each of them, in their order, and how the default is chosen.
pub proof fn options_document_says(directory: ProfileDirectory, i: int)
    requires
        0 <= i < directory.options@.len(),
    ensures
        options_document(directory) matches JsonView::Object(shown) && {
            &&& shown.dom() == set![
            "presets"@,
            "defaultConfiguration"@,
        ]
            &&& shown["defaultConfiguration"@] == JsonView::Object(
                members_view(directory.options@[directory.default as int].configuration@),
            )
            &&& shown["presets"@] matches JsonView::Array(presets) && presets.len()
                == directory.options@.len() && presets[i] == preset_document(directory.options@[i])
        },
{
    reveal_strlit("presets");
    reveal_strlit("defaultConfiguration");
    assert("presets"@.len() == 7);
    assert("defaultConfiguration"@.len() == 20);
    let shown = options_document(directory)->Object_0;
    assert(shown.dom() =~= set![
            "presets"@,
            "defaultConfiguration"@,
        ]);
}

/// The document of a release says all that is known of it, each thing under its own name.
pub proof fn release_document_says(release: RequestProfileRelease)
    ensures
        release_document(release) matches JsonView::Object(shown) && {
            &&& shown.dom() == set![
            "status"@,
            "checkedAt"@,
            "latestVersion"@,
            "latestBuild"@,
            "publishedAt"@,
            "minimumSystemVersion"@,
            "hardwareRequirements"@,
            "downloadUrl"@,
            "downloadSize"@,
            "signaturePresent"@,
            "error"@,
        ]
            &&& release.status is Unchecked ==> shown["status"@] == JsonView::Text("unchecked"@)
            &&& release.status is Current ==> shown["status"@] == JsonView::Text("current"@)
            &&& release.status is UpdateAvailable ==> shown["status"@] == JsonView::Text(
                "update_available"@,
            )
            &&& release.status is Failed ==> shown["status"@] == JsonView::Text("failed"@)
            &&& release.checked_at_ms is Some ==> shown["checkedAt"@] == JsonView::Text(moment_text(release.checked_at_ms->0))
            &&& release.checked_at_ms is None ==> shown["checkedAt"@] == JsonView::Null
            &&& release.latest_version is Some ==> shown["latestVersion"@] == JsonView::Text(release.latest_version->0@)
            &&& release.latest_version is None ==> shown["latestVersion"@] == JsonView::Null
            &&& release.latest_build is Some ==> shown["latestBuild"@] == JsonView::Text(release.latest_build->0@)
            &&& release.latest_build is None ==> shown["latestBuild"@] == JsonView::Null
            &&& release.published_at_ms is Some ==> shown["publishedAt"@] == JsonView::Text(moment_text(release.published_at_ms->0))
            &&& release.published_at_ms is None ==> shown["publishedAt"@] == JsonView::Null
            &&& release.minimum_system_version is Some ==> shown["minimumSystemVersion"@] == JsonView::Text(release.minimum_system_version->0@)
            &&& release.minimum_system_version is None ==> shown["minimumSystemVersion"@] == JsonView::Null
            &&& release.hardware_requirements is Some ==> shown["hardwareRequirements"@] == JsonView::Text(release.hardware_requirements->0@)
            &&& release.hardware_requirements is None ==> shown["hardwareRequirements"@] == JsonView::Null
            &&& release.download_url is Some ==> shown["downloadUrl"@] == JsonView::Text(release.download_url->0@)
            &&& release.download_url is None ==> shown["downloadUrl"@] == JsonView::Null
            &&& release.download_size is Some ==> shown["downloadSize"@] == JsonView::Number(
                NumberView::Unsigned(release.download_size->0),
            )
            &&& release.download_size is None ==> shown["downloadSize"@] == JsonView::Null
            &&& shown["signaturePresent"@] == JsonView::Bool(release.signature_present)
            &&& release.error is Some ==> shown["error"@] == JsonView::Text(release.error->0@)
            &&& release.error is None ==> shown["error"@] == JsonView::Null
        },
{
    reveal_strlit("status");
    reveal_strlit("checkedAt");
    reveal_strlit("latestVersion");
    reveal_strlit("latestBuild");
    reveal_strlit("publishedAt");
    reveal_strlit("minimumSystemVersion");
    reveal_strlit("hardwareRequirements");
    reveal_strlit("downloadUrl");
    reveal_strlit("downloadSize");
    reveal_strlit("signaturePresent");
    reveal_strlit("error");
    assert("status"@.len() == 6);
    assert("checkedAt"@.len() == 9);
    assert("latestVersion"@.len() == 13);
    assert("latestBuild"@.len() == 11);
    assert("publishedAt"@.len() == 11);
    assert("minimumSystemVersion"@.len() == 20);
    assert("hardwareRequirements"@.len() == 20);
    assert("downloadUrl"@.len() == 11);
    assert("downloadSize"@.len() == 12);
    assert("signaturePresent"@.len() == 16);
    assert("error"@.len() == 5);
    assert("latestBuild"@[0] != "publishedAt"@[0]);
    assert("latestBuild"@[0] != "downloadUrl"@[0]);
    assert("publishedAt"@[0] != "downloadUrl"@[0]);
    assert("minimumSystemVersion"@[0] != "hardwareRequirements"@[0]);
    let shown = release_document(release)->Object_0;
    assert(shown.dom() =~= set![
            "status"@,
            "checkedAt"@,
            "latestVersion"@,
            "latestBuild"@,
            "publishedAt"@,
            "minimumSystemVersion"@,
            "hardwareRequirements"@,
            "downloadUrl"@,
            "downloadSize"@,
            "signaturePresent"@,
            "error"@,
        ]);
}

/// The document in which a client is shown says how it is chosen and how it presents itself, each thing
/// under its own name.
#[verifier::rlimit(40)]
pub proof fn preview_document_says(option: RequestProfileOption)
    ensures
        preview_document(option) matches JsonView::Object(shown) && {
            let seen = option.presentation;
            &&& shown.dom() == set![
            "configuration"@,
            "product"@,
            "version"@,
            "build"@,
            "target"@,
            "userAgent"@,
            "attributes"@,
            "verifiedAt"@,
            "release"@,
        ]
            &&& shown["configuration"@] == JsonView::Object(members_view(option.configuration@))
            &&& shown["product"@] == JsonView::Text(seen.product@)
            &&& shown["version"@] == JsonView::Text(seen.version@)
            &&& seen.build is Some ==> shown["build"@] == JsonView::Text(seen.build->0@)
            &&& seen.build is None ==> shown["build"@] == JsonView::Null
            &&& shown["target"@] == target_document(seen.target)
            &&& shown["userAgent"@] == JsonView::Text(seen.user_agent@)
            &&& shown["attributes"@] matches JsonView::Array(said) && said.len()
                == seen.attributes@.len() && forall|i: int|
                0 <= i < said.len() ==> #[trigger] said[i] == attribute_document(seen.attributes@[i])
            &&& seen.verified_at_ms is Some ==> shown["verifiedAt"@] == JsonView::Text(moment_text(seen.verified_at_ms->0))
            &&& seen.verified_at_ms is None ==> shown["verifiedAt"@] == JsonView::Null
            &&& seen.release is Some ==> shown["release"@] == release_document(seen.release->0)
            &&& seen.release is None ==> shown["release"@] == JsonView::Null
        },
{
    reveal_strlit("configuration");
    reveal_strlit("product");
    reveal_strlit("version");
    reveal_strlit("build");
    reveal_strlit("target");
    reveal_strlit("userAgent");
    reveal_strlit("attributes");
    reveal_strlit("verifiedAt");
    reveal_strlit("release");
    assert("configuration"@.len() == 13);
    assert("product"@.len() == 7);
    assert("version"@.len() == 7);
    assert("build"@.len() == 5);
    assert("target"@.len() == 6);
    assert("userAgent"@.len() == 9);
    assert("attributes"@.len() == 10);
    assert("verifiedAt"@.len() == 10);
    assert("release"@.len() == 7);
    assert("product"@[0] != "version"@[0]);
    assert("product"@[0] != "release"@[0]);
    assert("version"@[0] != "release"@[0]);
    assert("attributes"@[0] != "verifiedAt"@[0]);
    let shown = preview_document(option)->Object_0;
    assert(shown.dom() =~= set![
            "configuration"@,
            "product"@,
            "version"@,
            "build"@,
            "target"@,
            "userAgent"@,
            "attributes"@,
            "verifiedAt"@,
            "release"@,
        ]);
}

/// The document of a machine, and of something that is said of a client, says each thing under its own
/// name.
pub proof fn target_document_says(
    target: RequestProfileTarget,
    attribute: RequestProfileAttribute,
)
    ensures
        target_document(target) matches JsonView::Object(shown) && {
            &&& shown.dom() == set![
            "osType"@,
            "osVersion"@,
            "arch"@,
            "terminal"@,
        ]
            &&& shown["osType"@] == JsonView::Text(target.os_type@)
            &&& shown["osVersion"@] == JsonView::Text(target.os_version@)
            &&& shown["arch"@] == JsonView::Text(target.arch@)
            &&& shown["terminal"@] == JsonView::Text(target.terminal@)
        },
        attribute_document(attribute) matches JsonView::Object(said) && {
            &&& said.dom() == set![
            "label"@,
            "value"@,
        ]
            &&& said["label"@] == JsonView::Text(attribute.label@)
            &&& said["value"@] == JsonView::Text(attribute.value@)
        },
{
    reveal_strlit("osType");
    reveal_strlit("osVersion");
    reveal_strlit("arch");
    reveal_strlit("terminal");
    assert("osType"@.len() == 6);
    assert("osVersion"@.len() == 9);
    assert("arch"@.len() == 4);
    assert("terminal"@.len() == 8);
    reveal_strlit("label");
    reveal_strlit("value");
    assert("label"@.len() == 5);
    assert("value"@.len() == 5);
    assert("label"@[0] != "value"@[0]);
    let shown = target_document(target)->Object_0;
    assert(shown.dom() =~= set![
            "osType"@,
            "osVersion"@,
            "arch"@,
            "terminal"@,
        ]);
    let said = attribute_document(attribute)->Object_0;
    assert(said.dom() =~= set![
            "label"@,
            "value"@,
        ]);
}

impl ProfileDirectory {
    /// What putting a newer list in the place of one does.
    pub open spec fn replaces(
        &self,
        before: &Self,
        next: ProfileDirectory,
        result: Result<(), AdminError>,
    ) -> bool {
        if next.follows(before) {
            result is Ok && *self == (if next.sequence > before.sequence {
                next
            } else {
                *before
            })
        } else {
            result == Err::<(), AdminError>(descriptor_refused()) && *self == *before
        }
    }

    /// What a choice of a client stands for.
    pub open spec fn is_resolved(
        &self,
        configuration: Vec<(String, Json)>,
        result: Result<Vec<(String, Json)>, ProviderError>,
    ) -> bool {
        match result {
            Ok(resolved) => exists|k: int|
                #[trigger] self.is_first(configuration, k) && members_view(resolved@)
                    == members_view(self.options@[k].resolved@),
            Err(error) => !self.offers(configuration) && error == unsent_error(
                ProviderErrorKind::InvalidRequest,
            ),
        }
    }
}

/// A list is only ever replaced by a newer one that keeps every choice; an older one changes nothing,
/// and one that drops a choice is refused.
pub proof fn replaced_by_newer_lists(
    before: ProfileDirectory,
    after: ProfileDirectory,
    next: ProfileDirectory,
    result: Result<(), AdminError>,
)
    requires
        after.replaces(&before, next, result),
    ensures
        after.sequence >= before.sequence,
        result is Err ==> after == before && !next.follows(&before),
        next.sequence <= before.sequence ==> after == before,
        result is Ok && next.sequence > before.sequence ==> after == next,
        after != before ==> after == next && next.follows(&before) && next.sequence > before.sequence,
        next.follows(&before) ==> result is Ok,
{
}

/// A choice stands for what its option is resolved to; what is not offered stands for nothing.
pub proof fn choices_are_resolved(
    directory: ProfileDirectory,
    configuration: Vec<(String, Json)>,
    place: int,
    result: Result<Vec<(String, Json)>, ProviderError>,
)
    requires
        directory.is_resolved(configuration, result),
        directory.is_first(configuration, place),
    ensures
        result matches Ok(resolved) && members_view(resolved@) == members_view(
            directory.options@[place].resolved@,
        ),
{
    first_choice_counts(directory, configuration, place, place);
    if let Ok(resolved) = result {
        let k = choose|k: int|
            #[trigger] directory.is_first(configuration, k) && members_view(resolved@)
                == members_view(directory.options@[k].resolved@);
        first_choice_counts(directory, configuration, place, k);
    }
}

impl ProfileDirectory {
    /// How a choice of a client is presented; without a choice, the default is.
    pub open spec fn is_presented(
        &self,
        configuration: Option<&Vec<(String, Json)>>,
        presentation: Option<&RequestProfilePresentation>,
    ) -> bool {
        match configuration {
            None => presentation matches Some(p) && *p
                == self.options@[self.default as int].presentation,
            Some(configuration) => match presentation {
                Some(p) => exists|k: int|
                    #[trigger] self.is_first(*configuration, k) && *p
                        == self.options@[k].presentation,
                None => !self.offers(*configuration),
            },
        }
    }

    /// What is shown of a choice before it is made.
    pub open spec fn is_previewed(
        &self,
        configuration: Vec<(String, Json)>,
        result: Result<Json, ProviderAdminError>,
    ) -> bool {
        match result {
            Ok(json) => exists|k: int|
                #[trigger] self.is_first(configuration, k) && json@ == preview_document(
                    self.options@[k],
                ),
            Err(error) => !self.offers(configuration) && error == admin(
                ProviderAdminErrorKind::Invalid,
            ),
        }
    }
}

/// A choice is presented and previewed as the option that it is; what is not offered is neither.
pub proof fn choices_are_presented(
    directory: ProfileDirectory,
    configuration: Vec<(String, Json)>,
    place: int,
    presentation: Option<&RequestProfilePresentation>,
    default: Option<&RequestProfilePresentation>,
    preview: Result<Json, ProviderAdminError>,
)
    requires
        directory.is_presented(Some(&configuration), presentation),
        directory.is_presented(None, default),
        directory.is_previewed(configuration, preview),
    ensures
        directory.is_first(configuration, place) ==> presentation == Some(
            &directory.options@[place].presentation,
        ) && (preview matches Ok(json) && json@ == preview_document(directory.options@[place])),
        !directory.offers(configuration) ==> presentation is None && (preview matches Err(error)
            && error.kind is Invalid),
        default == Some(&directory.options@[directory.default as int].presentation),
{
    first_choice_counts(directory, configuration, place, place);
    if let Some(p) = presentation {
        let k = choose|k: int|
            #[trigger] directory.is_first(configuration, k) && *p
                == directory.options@[k].presentation;
        first_choice_counts(directory, configuration, place, k);
        first_choice_counts(directory, configuration, k, k);
    }
    if let Ok(json) = preview {
        let k = choose|k: int|
            #[trigger] directory.is_first(configuration, k) && json@ == preview_document(
                directory.options@[k],
            );
        first_choice_counts(directory, configuration, place, k);
        first_choice_counts(directory, configuration, k, k);
    }
}

} // verus!
