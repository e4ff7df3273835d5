//! Configuration migration and the checks on configuration text.
//!
//! Reading and writing the configuration file, and turning JSON into values,
//! happen around this module; here the configuration is brought up to the
//! current schema.
use vstd::prelude::*;

use crate::errors::{AppError, AppResult};
use crate::models::{
    default_diag_targets, default_presets, default_target_views, preset_views, profile_views,
    target_views, AppConfig, AppSettings, DiagnosticTarget, DnsProfile, ProfileView,
    SCHEMA_VERSION,
};
use crate::text::{chars_of, concat, decimal, str_eq, trim, trimmed, u64_text};

verus! {

/// Some profile in `ps` has id `id`.
pub open spec fn has_id(ps: Seq<DnsProfile>, id: Seq<char>) -> bool {
    exists|i: int| 0 <= i < ps.len() && (#[trigger] ps[i]).id@ == id
}

/// The presets of `ps` whose id no profile of `existing` has, in order.
pub open spec fn missing_presets(ps: Seq<ProfileView>, existing: Seq<DnsProfile>) -> Seq<
    ProfileView,
>
    decreases ps.len(),
{
    if ps.len() == 0 {
        Seq::empty()
    } else {
        let r = missing_presets(ps.drop_last(), existing);
        if has_id(existing, ps.last().id) {
            r
        } else {
            r.push(ps.last())
        }
    }
}

/// The diagnostic targets are empty, and are filled with the defaults; a
/// list the user has kept stays as it is.
pub open spec fn targets_need_reset(t: Seq<DiagnosticTarget>) -> bool {
    t.len() == 0
}

/// Everything but the diagnostic targets is the same.
pub open spec fn same_settings_but_targets(a: AppSettings, b: AppSettings) -> bool {
    &&& a.theme == b.theme
    &&& a.doh_enabled == b.doh_enabled
    &&& a.dns_encryption_type == b.dns_encryption_type
    &&& a.ipv6_enabled == b.ipv6_enabled
    &&& a.minimize_to_tray == b.minimize_to_tray
    &&& a.start_on_boot == b.start_on_boot
    &&& a.active_adapter_id == b.active_adapter_id
    &&& a.auto_ping_enabled == b.auto_ping_enabled
    &&& a.auto_update == b.auto_update
}

/// Everything but the profiles, the diagnostic targets and the schema version
/// is the same.
pub open spec fn same_user_data(a: AppConfig, b: AppConfig) -> bool {
    &&& a.active_profile_id == b.active_profile_id
    &&& a.is_connected == b.is_connected
    &&& a.history == b.history
    &&& a.rules == b.rules
    &&& a.auto_switch_rules == b.auto_switch_rules
    &&& a.auto_switch_enabled == b.auto_switch_enabled
    &&& same_settings_but_targets(a.settings, b.settings)
}

/// The configuration that migration makes of `old`, which is not newer than
/// the supported schema.
pub open spec fn migrated(old: AppConfig, new: AppConfig) -> bool {
    let n = old.profiles@.len();
    &&& new.profiles@.len() >= n
    &&& new.profiles@.take(n as int) == old.profiles@
    &&& profile_views(new.profiles@.skip(n as int)) == missing_presets(
        preset_views(),
        old.profiles@,
    )
    &&& if targets_need_reset(old.settings.diagnostic_targets@) {
        target_views(new.settings.diagnostic_targets@) == default_target_views()
    } else {
        new.settings.diagnostic_targets == old.settings.diagnostic_targets
    }
    &&& new.schema_version == SCHEMA_VERSION
    &&& same_user_data(new, old)
}

/// The message for a configuration that is newer than supported.
pub open spec fn newer_schema_message(v: u32) -> Seq<char> {
    "Config schema version "@ + decimal(v as nat) + " is newer than supported "@ + decimal(
        SCHEMA_VERSION as nat,
    )
}

impl DnsProfile {
    /// A profile with the same content.
    pub fn duplicate(&self) -> (r: DnsProfile)
        ensures
            r@ == self@,
    {
        DnsProfile {
            id: self.id.clone(),
            name: self.name.clone(),
            primary_ipv4: self.primary_ipv4.clone(),
            secondary_ipv4: crate::text::copy_opt(&self.secondary_ipv4),
            primary_ipv6: crate::text::copy_opt(&self.primary_ipv6),
            secondary_ipv6: crate::text::copy_opt(&self.secondary_ipv6),
            doh_url: crate::text::copy_opt(&self.doh_url),
            dot_host: crate::text::copy_opt(&self.dot_host),
            favorite: self.favorite,
            preset: self.preset,
        }
    }
}

fn has_id_upto(ps: &Vec<DnsProfile>, n: usize, id: &String) -> (r: bool)
    requires
        n <= ps@.len(),
    ensures
        r == has_id(ps@.take(n as int), id@),
{
    for i in 0..n
        invariant
            n <= ps@.len(),
            forall|j: int| 0 <= j < i ==> ps@[j].id@ != id@,
    {
        if str_eq(ps[i].id.as_str(), id.as_str()) {
            assert(ps@.take(n as int)[i as int] == ps@[i as int]);
            return true;
        }
    }
    assert forall|j: int| 0 <= j < n implies (#[trigger] ps@.take(n as int)[j]).id@ != id@ by {
        assert(ps@.take(n as int)[j] == ps@[j]);
    }
    false
}

/// Apply forward migrations for older config schemas: add the presets that
/// are missing (matched by id), fill an empty list of diagnostic targets with
/// the defaults, keep all other user data, and stamp the current schema
/// version. A configuration
/// newer than supported is refused and left as it was.
pub fn migrate_config(cfg: &mut AppConfig) -> (r: AppResult<()>)
    ensures
        old(cfg).schema_version > SCHEMA_VERSION ==> (r matches Err(AppError::Config(m)) && m@
            == newer_schema_message(old(cfg).schema_version) && *final(cfg) == *old(cfg)),
        old(cfg).schema_version <= SCHEMA_VERSION ==> r is Ok && migrated(*old(cfg), *final(cfg)),
{
    if cfg.schema_version > SCHEMA_VERSION {
        let a = concat("Config schema version ", u64_text(cfg.schema_version as u64).as_str());
        let b = concat(a.as_str(), " is newer than supported ");
        let m = concat(b.as_str(), u64_text(SCHEMA_VERSION as u64).as_str());
        return Err(AppError::Config(m));
    }
    let ghost old_cfg = *cfg;
    let n0 = cfg.profiles.len();
    let defaults = default_presets();
    let k = defaults.len();
    assert(preset_views().len() == 10);
    assert(profile_views(defaults@).len() == defaults@.len());
    for i in 0..k
        invariant
            k == defaults@.len(),
            profile_views(defaults@) == preset_views(),
            n0 == old_cfg.profiles@.len(),
            cfg.profiles@.len() >= n0,
            cfg.profiles@.take(n0 as int) == old_cfg.profiles@,
            profile_views(cfg.profiles@.skip(n0 as int)) == missing_presets(
                preset_views().take(i as int),
                old_cfg.profiles@,
            ),
            cfg.schema_version == old_cfg.schema_version,
            cfg.settings == old_cfg.settings,
            same_user_data(*cfg, old_cfg),
    {
        let ghost before = cfg.profiles@;
        assert(preset_views().take(i + 1).drop_last() =~= preset_views().take(i as int));
        assert(preset_views().take(i + 1).last() == defaults@[i as int]@);
        if !has_id_upto(&cfg.profiles, n0, &defaults[i].id) {
            cfg.profiles.push(defaults[i].duplicate());
            assert(cfg.profiles@.take(n0 as int) =~= before.take(n0 as int));
            assert(profile_views(cfg.profiles@.skip(n0 as int)) =~= profile_views(
                before.skip(n0 as int),
            ).push(defaults@[i as int]@));
        }
    }
    assert(preset_views().take(k as int) =~= preset_views());
    if cfg.settings.diagnostic_targets.len() == 0 {
        cfg.settings.diagnostic_targets = default_diag_targets();
    }
    cfg.schema_version = SCHEMA_VERSION;
    Ok(())
}

/// Whether configuration file text holds nothing but whitespace, in which
/// case the defaults are used.
pub fn config_text_is_blank(data: &str) -> (r: bool)
    ensures
        r == (trim(data@).len() == 0),
{
    let v = chars_of(data);
    trimmed(&v).len() == 0
}

/// Check the text of an import before it is parsed.
pub fn check_import_text(json: &str) -> (r: AppResult<()>)
    ensures
        r is Ok <==> trim(json@).len() > 0,
        r is Err ==> (r matches Err(AppError::Config(m)) && m@ == "Import data is empty"@),
{
    if config_text_is_blank(json) {
        return Err(AppError::config("Import data is empty"));
    }
    Ok(())
}


proof fn lemma_missing_has_preset(ps: Seq<ProfileView>, existing: Seq<DnsProfile>, k: int)
    requires
        0 <= k < ps.len(),
        !has_id(existing, ps[k].id),
    ensures
        exists|j: int| 0 <= j < missing_presets(ps, existing).len() && #[trigger] missing_presets(ps, existing)[j] == ps[k],
    decreases ps.len(),
{
    let r = missing_presets(ps.drop_last(), existing);
    if k == ps.len() - 1 {
        assert(missing_presets(ps, existing)[r.len() as int] == ps[k]);
    } else {
        lemma_missing_has_preset(ps.drop_last(), existing, k);
        let j = choose|j: int| 0 <= j < r.len() && #[trigger] r[j] == ps.drop_last()[k];
        assert(missing_presets(ps, existing)[j] == ps[k]);
    }
}

proof fn lemma_nothing_missing(ps: Seq<ProfileView>, existing: Seq<DnsProfile>)
    requires
        forall|k: int| 0 <= k < ps.len() ==> has_id(existing, #[trigger] ps[k].id),
    ensures
        missing_presets(ps, existing).len() == 0,
    decreases ps.len(),
{
    if ps.len() > 0 {
        assert(has_id(existing, ps[ps.len() - 1].id));
        assert forall|k: int| 0 <= k < ps.drop_last().len() implies has_id(
            existing,
            #[trigger] ps.drop_last()[k].id,
        ) by {
            assert(ps.drop_last()[k] == ps[k]);
        }
        lemma_nothing_missing(ps.drop_last(), existing);
    }
}

/// After migration every preset is present, found by its id: missing presets
/// are merged in by id.
pub proof fn law_migration_keeps_every_preset(old: AppConfig, new: AppConfig, k: int)
    requires
        migrated(old, new),
        0 <= k < preset_views().len(),
    ensures
        has_id(new.profiles@, preset_views()[k].id),
{
    let id = preset_views()[k].id;
    let n = old.profiles@.len();
    if has_id(old.profiles@, id) {
        let i = choose|i: int| 0 <= i < n && (#[trigger] old.profiles@[i]).id@ == id;
        assert(new.profiles@.take(n as int)[i] == new.profiles@[i]);
        assert(new.profiles@[i].id@ == id);
    } else {
        lemma_missing_has_preset(preset_views(), old.profiles@, k);
        let m = missing_presets(preset_views(), old.profiles@);
        let j = choose|j: int| 0 <= j < m.len() && #[trigger] m[j] == preset_views()[k];
        assert(profile_views(new.profiles@.skip(n as int))[j] == m[j]);
        assert(new.profiles@.skip(n as int)[j] == new.profiles@[n + j]);
        assert(new.profiles@[n + j].id@ == id);
    }
}

proof fn lemma_default_targets_current(t: Seq<DiagnosticTarget>)
    requires
        target_views(t) == default_target_views(),
    ensures
        !targets_need_reset(t),
{
    assert(target_views(t).len() == t.len());
    assert(default_target_views().len() == 7);
}

/// Migrating twice is migrating once: a second migration leaves the profiles,
/// the diagnostic targets and all user data as the first one left them.
pub proof fn law_migration_idempotent(old: AppConfig, mid: AppConfig, new: AppConfig)
    requires
        migrated(old, mid),
        migrated(mid, new),
    ensures
        new.profiles@ == mid.profiles@,
        new.settings.diagnostic_targets == mid.settings.diagnostic_targets,
        same_user_data(new, mid),
        new.schema_version == mid.schema_version,
{
    assert forall|k: int| 0 <= k < preset_views().len() implies has_id(
        mid.profiles@,
        #[trigger] preset_views()[k].id,
    ) by {
        law_migration_keeps_every_preset(old, mid, k);
    }
    lemma_nothing_missing(preset_views(), mid.profiles@);
    let n = mid.profiles@.len();
    assert(new.profiles@.skip(n as int).len() == 0);
    assert(new.profiles@ =~= new.profiles@.take(n as int));
    if targets_need_reset(old.settings.diagnostic_targets@) {
        lemma_default_targets_current(mid.settings.diagnostic_targets@);
    }
}

} // verus!
