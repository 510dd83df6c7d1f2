//! What profiles keep, and what is found under their names.
use crate::profile::{StorageConfig, StorageProvider, StoredProfile};
use crate::profiles::Profiles;
use vstd::prelude::*;

verus! {

// ---------------------------------------------------------------------------------------------
// Single profiles
// ---------------------------------------------------------------------------------------------

/// Two optional texts are both absent, or both there and the same.
pub open spec fn same_text(a: Option<String>, b: Option<String>) -> bool {
    match (a, b) {
        (Some(a), Some(b)) => a@ == b@,
        (None, None) => true,
        _ => false,
    }
}

/// Two profiles agree in each field.
pub open spec fn same_profile(a: StoredProfile, b: StoredProfile) -> bool {
    &&& a.provider@ == b.provider@
    &&& a.bucket@ == b.bucket@
    &&& same_text(a.access_key_id, b.access_key_id)
    &&& same_text(a.access_key_secret, b.access_key_secret)
    &&& same_text(a.endpoint, b.endpoint)
    &&& same_text(a.region, b.region)
    &&& same_text(a.root_path, b.root_path)
    &&& same_text(a.name_node, b.name_node)
    &&& a.anonymous == b.anonymous
}

/// A profile and a configuration agree in each field but the provider.
pub open spec fn agrees(profile: StoredProfile, config: StorageConfig) -> bool {
    &&& profile.bucket@ == config.bucket@
    &&& same_text(profile.access_key_id, config.access_key_id)
    &&& same_text(profile.access_key_secret, config.access_key_secret)
    &&& same_text(profile.endpoint, config.endpoint)
    &&& same_text(profile.region, config.region)
    &&& same_text(profile.root_path, config.root_path)
    &&& same_text(profile.name_node, config.name_node)
    &&& profile.anonymous == config.anonymous
}

/// The text of an optional string is its text.
pub proof fn law_optional_text(text: Option<String>)
    ensures
        text matches Some(string) ==> crate::profile::optional_text(text) == Some(string@),
        text is None ==> crate::profile::optional_text(text) is None,
{
}

/// Profiles say the same if and only if they agree in each field.
pub proof fn law_profiles_say_the_same(a: StoredProfile, b: StoredProfile)
    ensures
        a@ == b@ <==> same_profile(a, b),
{
}

/// A copy of a profile agrees with it in each field.
pub proof fn law_copied_profile(profile: StoredProfile, copy: StoredProfile)
    requires
        call_ensures(StoredProfile::clone, (&profile,), copy),
    ensures
        same_profile(profile, copy),
{
    law_profiles_say_the_same(profile, copy);
}

/// A profile that is made from a configuration agrees with it in each field, and has the provider's
/// name.
pub proof fn law_profile_from_config(config: StorageConfig, profile: StoredProfile, name: &str)
    requires
        call_ensures(StoredProfile::from_config, (&config,), profile),
        call_ensures(StorageProvider::as_str, (&config.provider,), name),
    ensures
        agrees(profile, config),
        profile.provider@ == name@,
{
    lemma_agrees(profile, config);
}

proof fn lemma_agrees(profile: StoredProfile, config: StorageConfig)
    ensures
        profile@.with_provider(config@.provider) == config@ <==> agrees(profile, config),
        profile@ == config@ <==> agrees(profile, config) && profile.provider@ == config.provider@,
{
}

/// A profile is turned into what `prepare` makes of a configuration that agrees with it in each field,
/// for the provider that `recognize` finds by the profile's provider name; where `recognize` finds
/// none, its error is the result.
pub proof fn law_profile_into_config<
    E,
    R: FnOnce(&str) -> Result<StorageProvider, E>,
    P: FnOnce(StorageConfig) -> Result<StorageConfig, E>,
>(profile: StoredProfile, recognize: R, prepare: P, result: Result<StorageConfig, E>)
    requires
        call_ensures(
            StoredProfile::into_config::<E, R, P>,
            (profile, recognize, prepare),
            result,
        ),
    ensures
        exists|name: &str, provider: Result<StorageProvider, E>|
            #![trigger call_ensures(recognize, (name,), provider)]
            name@ == profile.provider@ && call_ensures(recognize, (name,), provider) && (
            match provider {
                Err(err) => result matches Err(found) && found == err,
                Ok(provider) => exists|config: StorageConfig|
                    #![trigger call_ensures(prepare, (config,), result)]
                    agrees(profile, config) && config.provider@ == provider@ && call_ensures(
                        prepare,
                        (config,),
                        result,
                    ),
            }),
{
    let (name, provider) = choose|name: &str, provider: Result<StorageProvider, E>|
        #![trigger call_ensures(recognize, (name,), provider)]
        name@ == profile@.provider && call_ensures(recognize, (name,), provider) && (match provider {
            Err(err) => result matches Err(found) && found == err,
            Ok(provider) => crate::profile::prepared_from(
                profile@.with_provider(provider@),
                prepare,
                result,
            ),
        });
    if let Ok(provider) = provider {
        let config = choose|config: StorageConfig|
            #![trigger call_ensures(prepare, (config,), result)]
            config@ == profile@.with_provider(provider@) && call_ensures(
                prepare,
                (config,),
                result,
            );
        lemma_agrees(profile, config);
        assert(agrees(profile, config) && config.provider@ == provider@ && call_ensures(
            prepare,
            (config,),
            result,
        ));
    }
}

// ---------------------------------------------------------------------------------------------
// Profiles by name
// ---------------------------------------------------------------------------------------------

/// The UTF-8 bytes of `a` come before those of `b`: at the first difference `a` ends or has the smaller
/// byte.
pub open spec fn bytes_before(a: Seq<char>, b: Seq<char>) -> bool {
    exists|i: int| #[trigger] differs_at(vstd::utf8::encode_utf8(a), vstd::utf8::encode_utf8(b), i)
}

/// `x` and `y` differ first at position `i`, where `x` ends or has the smaller byte.
pub open spec fn differs_at(x: Seq<u8>, y: Seq<u8>, i: int) -> bool {
    &&& 0 <= i < y.len()
    &&& i <= x.len()
    &&& x.subrange(0, i) == y.subrange(0, i)
    &&& i < x.len() ==> x[i] < y[i]
}

/// The order of names is that of their bytes.
pub proof fn law_name_order_is_byte_order(a: Seq<char>, b: Seq<char>)
    ensures
        crate::profiles::name_less(a, b) <==> bytes_before(a, b),
{
    let x = vstd::utf8::encode_utf8(a);
    let y = vstd::utf8::encode_utf8(b);
    if crate::profiles::name_less(a, b) {
        let i = choose|i: int| crate::profiles::less_at(x, y, i);
        assert(x.subrange(0, i) =~= y.subrange(0, i));
        assert(differs_at(x, y, i));
    }
    if bytes_before(a, b) {
        let i = choose|i: int| differs_at(x, y, i);
        assert forall|j: int| 0 <= j < i implies x[j] == y[j] by {
            assert(x.subrange(0, i)[j] == y.subrange(0, i)[j]);
        }
        assert(crate::profiles::less_at(x, y, i));
    }
}

/// The names are as many as the profiles, in the order of their bytes, each once; the profile at a
/// position is the one that is found under the name there.
pub proof fn law_profiles_are_listed(
    profiles: Profiles,
    len: usize,
    names: Vec<String>,
    i: usize,
    j: usize,
    name: &str,
    profile: &StoredProfile,
    found: Option<&StoredProfile>,
)
    requires
        profiles.wf(),
        call_ensures(Profiles::len, (&profiles,), len),
        call_ensures(Profiles::names, (&profiles,), names),
        i < len,
        call_ensures(Profiles::name_at, (&profiles, i), name),
        call_ensures(Profiles::profile_at, (&profiles, i), profile),
        call_ensures(Profiles::get, (&profiles, name), found),
    ensures
        names@.len() == len,
        names@[i as int]@ == name@,
        i < j < len ==> bytes_before(names@[i as int]@, names@[j as int]@),
        found matches Some(same) && same_profile(*same, *profile),
{
    crate::profiles::lemma_name_once(profiles@, i as int);
    if i < j < len {
        assert(names@[j as int]@ == profiles@[j as int].name);
        assert(crate::profiles::name_less(profiles@[i as int].name, profiles@[j as int].name));
        law_name_order_is_byte_order(names@[i as int]@, names@[j as int]@);
    }
    law_profiles_say_the_same(*found->Some_0, *profile);
}

/// A profile is found under a name, and the name is there, if and only if it is among the names.
pub proof fn law_profiles_are_found(
    profiles: Profiles,
    names: Vec<String>,
    name: &str,
    there: bool,
    found: Option<&StoredProfile>,
)
    requires
        profiles.wf(),
        call_ensures(Profiles::names, (&profiles,), names),
        call_ensures(Profiles::contains, (&profiles, name), there),
        call_ensures(Profiles::get, (&profiles, name), found),
    ensures
        there <==> exists|i: int| 0 <= i < names@.len() && (#[trigger] names@[i])@ == name@,
        there <==> found is Some,
{
    lemma_names(profiles, names, name@);
}

/// A name is among the names of profiles if and only if a profile has it.
pub proof fn lemma_names(profiles: Profiles, names: Vec<String>, name: Seq<char>)
    requires
        call_ensures(Profiles::names, (&profiles,), names),
    ensures
        crate::profiles::has_name(profiles@, name) <==> exists|i: int|
            0 <= i < names@.len() && (#[trigger] names@[i])@ == name,
{
    if crate::profiles::has_name(profiles@, name) {
        let i = choose|i: int| 0 <= i < profiles@.len() && #[trigger] profiles@[i].name == name;
        assert(names@[i]@ == name);
    }
    if exists|i: int| 0 <= i < names@.len() && (#[trigger] names@[i])@ == name {
        let i = choose|i: int| 0 <= i < names@.len() && (#[trigger] names@[i])@ == name;
        assert(profiles@[i].name == name);
    }
}

/// The same is found in both, or nothing in both.
pub open spec fn same_found(a: Option<&StoredProfile>, b: Option<&StoredProfile>) -> bool {
    match (a, b) {
        (Some(a), Some(b)) => same_profile(*a, *b),
        (None, None) => true,
        _ => false,
    }
}

/// After a profile is inserted, it is found under its name, and under every other name what was found
/// before.
pub proof fn law_inserted_profile_is_found(
    profiles: &mut Profiles,
    name: String,
    profile: StoredProfile,
    wanted: &str,
    before: Option<&StoredProfile>,
    after: Option<&StoredProfile>,
)
    requires
        old(profiles).wf(),
        call_ensures(Profiles::insert, (profiles, name, profile), ()),
        call_ensures(Profiles::get, (&*old(profiles), wanted), before),
        call_ensures(Profiles::get, (&*final(profiles), wanted), after),
    ensures
        final(profiles).wf(),
        wanted@ == name@ ==> (after matches Some(found) && same_profile(*found, profile)),
        wanted@ != name@ ==> same_found(before, after),
{
    if let Some(found) = after {
        law_profiles_say_the_same(*found, profile);
        if let Some(other) = before {
            law_profiles_say_the_same(*other, *found);
        }
    }
}

/// After a profile is removed, nothing is found under its name, and under every other name what was
/// found before. It was there if and only if something was found.
pub proof fn law_removed_profile_is_gone(
    profiles: &mut Profiles,
    name: &str,
    removed: bool,
    wanted: &str,
    before: Option<&StoredProfile>,
    after: Option<&StoredProfile>,
)
    requires
        old(profiles).wf(),
        call_ensures(Profiles::remove, (profiles, name), removed),
        call_ensures(Profiles::get, (&*old(profiles), wanted), before),
        call_ensures(Profiles::get, (&*final(profiles), wanted), after),
    ensures
        final(profiles).wf(),
        wanted@ == name@ ==> after is None && (removed <==> before is Some),
        wanted@ != name@ ==> same_found(before, after),
{
    if let (Some(other), Some(found)) = (before, after) {
        law_profiles_say_the_same(*other, *found);
    }
}

/// In a copy the same is found, under every name, and in new profiles nothing.
pub proof fn law_copied_and_new_profiles(
    profiles: Profiles,
    copy: Profiles,
    empty: Profiles,
    wanted: &str,
    found: Option<&StoredProfile>,
    copied: Option<&StoredProfile>,
    nothing: Option<&StoredProfile>,
    len: usize,
)
    requires
        profiles.wf(),
        call_ensures(Profiles::clone, (&profiles,), copy),
        call_ensures(Profiles::new, (), empty),
        call_ensures(Profiles::get, (&profiles, wanted), found),
        call_ensures(Profiles::get, (&copy, wanted), copied),
        call_ensures(Profiles::get, (&empty, wanted), nothing),
        call_ensures(Profiles::len, (&empty,), len),
    ensures
        copy.wf(),
        same_found(found, copied),
        nothing is None,
        len == 0,
{
    if let (Some(a), Some(b)) = (found, copied) {
        law_profiles_say_the_same(*a, *b);
    }
}

} // verus!
