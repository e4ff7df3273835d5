//! The changes that the application's commands make to the configuration:
//! saving and deleting profiles, managing rules and auto-switch rules, and
//! recording which profile is active. Persisting the result is up to the
//! caller.
use vstd::prelude::*;

use crate::errors::{outcome, AppError, AppResult};
use crate::models::{AppConfig, AppRule, AppSettings, AutoSwitchRule, DnsProfile};
use crate::text::str_eq;
use crate::validation::{
    doh_url_check, dot_host_check, ipv4_check, ipv6_check, profile_id_check, profile_name_check,
    validate_doh_url, validate_dot_host, validate_ipv4, validate_ipv6, validate_profile_id,
    validate_profile_name,
};

verus! {

// ---------------------------------------------------------------------------
// Profiles
// ---------------------------------------------------------------------------

/// The check an optional field gets: none when it is absent or empty.
pub open spec fn optional_check(
    o: Option<Seq<char>>,
    check: spec_fn(Seq<char>) -> Option<Seq<char>>,
) -> Option<Seq<char>> {
    match o {
        Some(s) => if s.len() > 0 {
            check(s)
        } else {
            None
        },
        None => None,
    }
}

/// The first problem found with a profile before it is saved: its id, its
/// name, its addresses, its DoH URL and its DoT host are checked in turn.
pub open spec fn profile_problem(p: DnsProfile) -> Option<Seq<char>> {
    let checks = seq![
        profile_id_check(p.id@),
        profile_name_check(p.name@),
        ipv4_check(p.primary_ipv4@),
        optional_check(p.secondary_ipv4.deep_view(), |s| ipv4_check(s)),
        optional_check(p.primary_ipv6.deep_view(), |s| ipv6_check(s)),
        optional_check(p.secondary_ipv6.deep_view(), |s| ipv6_check(s)),
        optional_check(p.doh_url.deep_view(), |s| doh_url_check(s)),
        optional_check(p.dot_host.deep_view(), |s| dot_host_check(s)),
    ];
    first_some(checks, 0)
}

/// The first `Some` of `c` from position `i` on.
pub open spec fn first_some(c: Seq<Option<Seq<char>>>, i: int) -> Option<Seq<char>>
    decreases c.len() - i,
{
    if i < 0 || i >= c.len() {
        None
    } else if c[i] is Some {
        c[i]
    } else {
        first_some(c, i + 1)
    }
}

/// Records identified by a text id.
pub trait Keyed {
    /// The record's id.
    spec fn key(&self) -> Seq<char>;

    /// The record's id.
    fn key_text(&self) -> (r: &str)
        ensures
            r@ == self.key(),
    ;
}

impl Keyed for DnsProfile {
    open spec fn key(&self) -> Seq<char> {
        self.id@
    }

    fn key_text(&self) -> (r: &str) {
        self.id.as_str()
    }
}

impl Keyed for AppRule {
    open spec fn key(&self) -> Seq<char> {
        self.id@
    }

    fn key_text(&self) -> (r: &str) {
        self.id.as_str()
    }
}

impl Keyed for AutoSwitchRule {
    open spec fn key(&self) -> Seq<char> {
        self.id@
    }

    fn key_text(&self) -> (r: &str) {
        self.id.as_str()
    }
}

/// Position of the first record of `s` with id `id`, or -1.
pub open spec fn index_of_key<T: Keyed>(s: Seq<T>, id: Seq<char>) -> int
    decreases s.len(),
{
    if s.len() == 0 {
        -1
    } else if s[0].key() == id {
        0
    } else {
        let r = index_of_key(s.drop_first(), id);
        if r < 0 {
            -1
        } else {
            r + 1
        }
    }
}

/// Some record of `s` has id `id`.
pub open spec fn has_key<T: Keyed>(s: Seq<T>, id: Seq<char>) -> bool {
    exists|i: int| 0 <= i < s.len() && (#[trigger] s[i]).key() == id
}

/// The records of `s` whose id is not `id`, in order.
pub open spec fn without_key<T: Keyed>(s: Seq<T>, id: Seq<char>) -> Seq<T>
    decreases s.len(),
{
    if s.len() == 0 {
        s
    } else {
        let r = without_key(s.drop_last(), id);
        if s.last().key() == id {
            r
        } else {
            r.push(s.last())
        }
    }
}

/// `s` with `p` in place of the first record of the same id, or with `p`
/// added at the end when there is none.
pub open spec fn upserted<T: Keyed>(s: Seq<T>, p: T) -> Seq<T> {
    let k = index_of_key(s, p.key());
    if k >= 0 {
        s.update(k, p)
    } else {
        s.push(p)
    }
}

pub proof fn lemma_index_of_key<T: Keyed>(s: Seq<T>, id: Seq<char>, i: int)
    requires
        0 <= i <= s.len(),
        forall|j: int| 0 <= j < i ==> (#[trigger] s[j]).key() != id,
    ensures
        i < s.len() && s[i].key() == id ==> index_of_key(s, id) == i,
        i == s.len() ==> index_of_key(s, id) == -1,
    decreases i,
{
    if i > 0 {
        let t = s.drop_first();
        assert forall|j: int| 0 <= j < i - 1 implies (#[trigger] t[j]).key() != id by {
            assert(t[j] == s[j + 1]);
        }
        lemma_index_of_key(t, id, i - 1);
        assert(s[0].key() != id);
    }
}

/// What [`index_of_key`] finds is the first record with that id.
pub proof fn lemma_index_of_key_found<T: Keyed>(s: Seq<T>, id: Seq<char>)
    ensures
        -1 <= index_of_key(s, id) < s.len(),
        index_of_key(s, id) >= 0 ==> s[index_of_key(s, id)].key() == id,
        forall|j: int| 0 <= j < index_of_key(s, id) ==> (#[trigger] s[j]).key() != id,
        index_of_key(s, id) < 0 <==> !has_key(s, id),
    decreases s.len(),
{
    if s.len() > 0 {
        let t = s.drop_first();
        lemma_index_of_key_found(t, id);
        assert forall|j: int| 0 < j < s.len() implies s[j] == t[j - 1] by {}
        if s[0].key() != id && index_of_key(t, id) < 0 {
            assert forall|j: int| 0 <= j < s.len() implies (#[trigger] s[j]).key() != id by {
                if j > 0 {
                    assert(s[j] == t[j - 1]);
                    assert(!has_key(t, id));
                    if t[j - 1].key() == id {
                        assert(has_key(t, id));
                    }
                }
            }
        }
        if has_key(t, id) {
            let w = choose|w: int| 0 <= w < t.len() && (#[trigger] t[w]).key() == id;
            assert(s[w + 1] == t[w]);
        }
    }
}

/// The first record of `v` with id `id`.
pub fn find_key<T: Keyed>(v: &Vec<T>, id: &str) -> (r: Option<usize>)
    ensures
        match r {
            Some(i) => index_of_key(v@, id@) == i && i < v@.len(),
            None => index_of_key(v@, id@) == -1,
        },
{
    let n = v.len();
    for i in 0..n
        invariant
            n == v@.len(),
            forall|j: int| 0 <= j < i ==> (#[trigger] v@[j]).key() != id@,
    {
        if str_eq(v[i].key_text(), id) {
            proof {
                lemma_index_of_key(v@, id@, i as int);
            }
            return Some(i);
        }
    }
    proof {
        lemma_index_of_key(v@, id@, n as int);
    }
    None
}

/// Removes every record of `v` with id `id`, keeping the order of the rest.
pub fn remove_key<T: Keyed>(v: &mut Vec<T>, id: &str)
    ensures
        final(v)@ == without_key(old(v)@, id@),
{
    let ghost orig = v@;
    let mut i: usize = 0;
    let ghost mut j: int = 0;
    while i < v.len()
        invariant
            i <= v@.len(),
            0 <= j <= orig.len(),
            v@.take(i as int) == without_key(orig.take(j), id@),
            v@.skip(i as int) == orig.skip(j),
        decreases v@.len() - i,
    {
        let ghost before = v@;
        assert(before.skip(i as int).len() == before.len() - i);
        assert(j < orig.len());
        assert(orig.take(j + 1).drop_last() =~= orig.take(j));
        assert(before[i as int] == orig.skip(j)[0]);
        assert(orig.take(j + 1).last() == orig[j]);
        assert forall|k: int| 0 <= k < orig.len() - j - 1 implies #[trigger] before.skip(i + 1)[k]
            == orig.skip(j + 1)[k] by {
            assert(before.skip(i as int)[k + 1] == orig.skip(j)[k + 1]);
        }
        if str_eq(v[i].key_text(), id) {
            v.remove(i);
            assert(v@.take(i as int) =~= before.take(i as int));
            assert(v@.skip(i as int) =~= orig.skip(j + 1));
        } else {
            assert(before.take(i + 1) =~= before.take(i as int).push(before[i as int]));
            assert(before.skip(i + 1) =~= orig.skip(j + 1));
            i += 1;
        }
        proof {
            j = j + 1;
        }
    }
    assert(orig.skip(j) =~= v@.skip(i as int));
    assert(orig.take(j) =~= orig);
    assert(v@.take(i as int) =~= v@);
}

/// Check every field of a profile before it is saved: the first problem
/// found is returned.
pub fn validate_profile(profile: &DnsProfile) -> (r: AppResult<()>)
    ensures
        outcome(r, profile_problem(*profile)),
{
    proof {
        reveal_with_fuel(first_some, 9);
    }
    let r = validate_profile_id(profile.id.as_str());
    if r.is_err() {
        return r;
    }
    let r = validate_profile_name(profile.name.as_str());
    if r.is_err() {
        return r;
    }
    let r = validate_ipv4(profile.primary_ipv4.as_str());
    if r.is_err() {
        return r;
    }
    if let Some(s) = &profile.secondary_ipv4 {
        if !s.as_str().is_empty() {
            let r = validate_ipv4(s.as_str());
            if r.is_err() {
                return r;
            }
        }
    }
    if let Some(s) = &profile.primary_ipv6 {
        if !s.as_str().is_empty() {
            let r = validate_ipv6(s.as_str());
            if r.is_err() {
                return r;
            }
        }
    }
    if let Some(s) = &profile.secondary_ipv6 {
        if !s.as_str().is_empty() {
            let r = validate_ipv6(s.as_str());
            if r.is_err() {
                return r;
            }
        }
    }
    if let Some(s) = &profile.doh_url {
        if !s.as_str().is_empty() {
            let r = validate_doh_url(s.as_str());
            if r.is_err() {
                return r;
            }
        }
    }
    if let Some(s) = &profile.dot_host {
        if !s.as_str().is_empty() {
            let r = validate_dot_host(s.as_str());
            if r.is_err() {
                return r;
            }
        }
    }
    Ok(())
}


/// Validate a profile and store it: it replaces the first profile of the same
/// id, or is added at the end.
pub fn save_profile(cfg: &mut AppConfig, profile: DnsProfile) -> (r: AppResult<()>)
    ensures
        outcome(r, profile_problem(profile)),
        r is Err ==> *final(cfg) == *old(cfg),
        r is Ok ==> final(cfg).profiles@ == upserted(old(cfg).profiles@, profile) && *final(cfg)
            == (AppConfig { profiles: final(cfg).profiles, ..*old(cfg) }),
{
    let r = validate_profile(&profile);
    if r.is_err() {
        return r;
    }
    match find_key(&cfg.profiles, profile.id.as_str()) {
        Some(i) => {
            cfg.profiles.set(i, profile);
        },
        None => {
            cfg.profiles.push(profile);
        },
    }
    Ok(())
}

/// What deleting the profile `id` does to the active profile: it is cleared,
/// and the connection flag with it, when it was that profile.
pub open spec fn deactivated_if(old: AppConfig, new: AppConfig, id: Seq<char>) -> bool {
    if old.active_profile_id.deep_view() == Some(id) {
        new.active_profile_id is None && !new.is_connected
    } else {
        new.active_profile_id == old.active_profile_id && new.is_connected == old.is_connected
    }
}

/// Delete every profile with id `profile_id`.
pub fn delete_profile(cfg: &mut AppConfig, profile_id: &str)
    ensures
        final(cfg).profiles@ == without_key(old(cfg).profiles@, profile_id@),
        deactivated_if(*old(cfg), *final(cfg), profile_id@),
        *final(cfg) == (AppConfig {
            profiles: final(cfg).profiles,
            active_profile_id: final(cfg).active_profile_id,
            is_connected: final(cfg).is_connected,
            ..*old(cfg)
        }),
{
    remove_key(&mut cfg.profiles, profile_id);
    let is_active = match &cfg.active_profile_id {
        Some(a) => str_eq(a.as_str(), profile_id),
        None => false,
    };
    if is_active {
        cfg.active_profile_id = None;
        cfg.is_connected = false;
    }
}

/// Replace the settings.
pub fn update_settings(cfg: &mut AppConfig, settings: AppSettings)
    ensures
        *final(cfg) == (AppConfig { settings, ..*old(cfg) }),
{
    cfg.settings = settings;
}

/// Record that the profile `profile_id` was applied.
pub fn mark_applied(cfg: &mut AppConfig, profile_id: &str)
    ensures
        final(cfg).active_profile_id.deep_view() == Some(profile_id@),
        final(cfg).is_connected,
        *final(cfg) == (AppConfig {
            active_profile_id: final(cfg).active_profile_id,
            is_connected: true,
            ..*old(cfg)
        }),
{
    cfg.active_profile_id = Some(profile_id.to_owned());
    cfg.is_connected = true;
}

/// Record that DNS was reset to automatic.
pub fn mark_cleared(cfg: &mut AppConfig)
    ensures
        *final(cfg) == (AppConfig { active_profile_id: None, is_connected: false, ..*old(cfg) }),
{
    cfg.active_profile_id = None;
    cfg.is_connected = false;
}

// ---------------------------------------------------------------------------
// Application rules
// ---------------------------------------------------------------------------

/// The first problem found with a rule before it is added.
pub open spec fn rule_problem(rule: AppRule, rules: Seq<AppRule>) -> Option<Seq<char>> {
    if profile_id_check(rule.id@) is Some {
        profile_id_check(rule.id@)
    } else if profile_name_check(rule.app_name@) is Some {
        profile_name_check(rule.app_name@)
    } else if has_key(rules, rule.id@) {
        Some("Rule ID already exists"@)
    } else {
        None
    }
}

/// Add a rule; its id must be new.
pub fn add_rule(cfg: &mut AppConfig, rule: AppRule) -> (r: AppResult<()>)
    ensures
        outcome(r, rule_problem(rule, old(cfg).rules@)),
        r is Err ==> *final(cfg) == *old(cfg),
        r is Ok ==> *final(cfg) == (AppConfig {
            rules: final(cfg).rules,
            ..*old(cfg)
        }) && final(cfg).rules@ == old(cfg).rules@.push(rule),
{
    let r = validate_profile_id(rule.id.as_str());
    if r.is_err() {
        return r;
    }
    let r = validate_profile_name(rule.app_name.as_str());
    if r.is_err() {
        return r;
    }
    proof {
        lemma_index_of_key_found(cfg.rules@, rule.id@);
    }
    if find_key(&cfg.rules, rule.id.as_str()).is_some() {
        return Err(AppError::validation("Rule ID already exists"));
    }
    cfg.rules.push(rule);
    Ok(())
}

/// Remove every rule with id `rule_id`.
pub fn remove_rule(cfg: &mut AppConfig, rule_id: &str)
    ensures
        final(cfg).rules@ == without_key(old(cfg).rules@, rule_id@),
        *final(cfg) == (AppConfig { rules: final(cfg).rules, ..*old(cfg) }),
{
    remove_key(&mut cfg.rules, rule_id);
}

/// `s` with the first record of id `id` switched on or off.
pub open spec fn rules_toggled(s: Seq<AppRule>, id: Seq<char>, enabled: bool) -> Seq<AppRule> {
    let k = index_of_key(s, id);
    if k >= 0 {
        s.update(k, AppRule { enabled, ..s[k] })
    } else {
        s
    }
}

/// Switch the first rule with id `rule_id` on or off.
pub fn toggle_rule(cfg: &mut AppConfig, rule_id: &str, enabled: bool)
    ensures
        final(cfg).rules@ == rules_toggled(old(cfg).rules@, rule_id@, enabled),
        *final(cfg) == (AppConfig { rules: final(cfg).rules, ..*old(cfg) }),
{
    if let Some(i) = find_key(&cfg.rules, rule_id) {
        let old_rule = &cfg.rules[i];
        let updated = AppRule {
            id: old_rule.id.clone(),
            app_name: old_rule.app_name.clone(),
            app_path: crate::text::copy_opt(&old_rule.app_path),
            profile_id: old_rule.profile_id.clone(),
            enabled,
        };
        cfg.rules.set(i, updated);
    }
}

// ---------------------------------------------------------------------------
// Auto-switch rules
// ---------------------------------------------------------------------------

/// The first problem found with an auto-switch rule before it is added.
pub open spec fn switch_rule_problem(rule: AutoSwitchRule, rules: Seq<AutoSwitchRule>) -> Option<
    Seq<char>,
> {
    if profile_id_check(rule.profile_id@) is Some {
        profile_id_check(rule.profile_id@)
    } else if rule.app_label@.len() == 0 || rule.match_name@.len() == 0 {
        Some("App label and match name are required"@)
    } else if has_key(rules, rule.id@) {
        Some("Auto-switch rule ID already exists"@)
    } else {
        None
    }
}

/// Add an auto-switch rule; its id must be new.
pub fn add_auto_switch_rule(cfg: &mut AppConfig, rule: AutoSwitchRule) -> (r: AppResult<()>)
    ensures
        outcome(r, switch_rule_problem(rule, old(cfg).auto_switch_rules@)),
        r is Err ==> *final(cfg) == *old(cfg),
        r is Ok ==> *final(cfg) == (AppConfig {
            auto_switch_rules: final(cfg).auto_switch_rules,
            ..*old(cfg)
        }) && final(cfg).auto_switch_rules@ == old(cfg).auto_switch_rules@.push(rule),
{
    let r = validate_profile_id(rule.profile_id.as_str());
    if r.is_err() {
        return r;
    }
    if rule.app_label.as_str().is_empty() || rule.match_name.as_str().is_empty() {
        return Err(AppError::validation("App label and match name are required"));
    }
    proof {
        lemma_index_of_key_found(cfg.auto_switch_rules@, rule.id@);
    }
    if find_key(&cfg.auto_switch_rules, rule.id.as_str()).is_some() {
        return Err(AppError::validation("Auto-switch rule ID already exists"));
    }
    cfg.auto_switch_rules.push(rule);
    Ok(())
}

/// Remove every auto-switch rule with id `rule_id`.
pub fn remove_auto_switch_rule(cfg: &mut AppConfig, rule_id: &str)
    ensures
        final(cfg).auto_switch_rules@ == without_key(old(cfg).auto_switch_rules@, rule_id@),
        *final(cfg) == (AppConfig { auto_switch_rules: final(cfg).auto_switch_rules, ..*old(cfg) }),
{
    remove_key(&mut cfg.auto_switch_rules, rule_id);
}

/// `s` with the first auto-switch rule of id `id` switched on or off.
pub open spec fn switch_rules_toggled(
    s: Seq<AutoSwitchRule>,
    id: Seq<char>,
    enabled: bool,
) -> Seq<AutoSwitchRule> {
    let k = index_of_key(s, id);
    if k >= 0 {
        s.update(k, AutoSwitchRule { enabled, ..s[k] })
    } else {
        s
    }
}

/// Switch the first auto-switch rule with id `rule_id` on or off.
pub fn toggle_auto_switch_rule(cfg: &mut AppConfig, rule_id: &str, enabled: bool)
    ensures
        final(cfg).auto_switch_rules@ == switch_rules_toggled(
            old(cfg).auto_switch_rules@,
            rule_id@,
            enabled,
        ),
        *final(cfg) == (AppConfig { auto_switch_rules: final(cfg).auto_switch_rules, ..*old(cfg) }),
{
    if let Some(i) = find_key(&cfg.auto_switch_rules, rule_id) {
        let old_rule = &cfg.auto_switch_rules[i];
        let updated = AutoSwitchRule {
            id: old_rule.id.clone(),
            app_label: old_rule.app_label.clone(),
            match_name: old_rule.match_name.clone(),
            app_path: crate::text::copy_opt(&old_rule.app_path),
            profile_id: old_rule.profile_id.clone(),
            enabled,
        };
        cfg.auto_switch_rules.set(i, updated);
    }
}

/// Switch the process watcher on or off.
pub fn set_auto_switch_enabled(cfg: &mut AppConfig, enabled: bool)
    ensures
        *final(cfg) == (AppConfig { auto_switch_enabled: enabled, ..*old(cfg) }),
{
    cfg.auto_switch_enabled = enabled;
}

// ---------------------------------------------------------------------------
// Laws
// ---------------------------------------------------------------------------

/// A record that was just stored is the one found under its id.
pub proof fn law_upsert_then_find<T: Keyed>(s: Seq<T>, p: T)
    ensures
        ({
            let u = upserted(s, p);
            let k = index_of_key(u, p.key());
            0 <= k < u.len() && u[k] == p
        }),
{
    lemma_index_of_key_found(s, p.key());
    let k = index_of_key(s, p.key());
    let u = upserted(s, p);
    if k >= 0 {
        assert forall|j: int| 0 <= j < k implies (#[trigger] u[j]).key() != p.key() by {
            assert(u[j] == s[j]);
        }
        lemma_index_of_key(u, p.key(), k);
    } else {
        assert forall|j: int| 0 <= j < s.len() implies (#[trigger] u[j]).key() != p.key() by {
            assert(u[j] == s[j]);
        }
        lemma_index_of_key(u, p.key(), s.len() as int);
    }
}

/// Storing a record leaves every record of another id where it was.
pub proof fn law_upsert_keeps_others<T: Keyed>(s: Seq<T>, p: T, i: int)
    requires
        0 <= i < s.len(),
        s[i].key() != p.key(),
    ensures
        upserted(s, p)[i] == s[i],
{
    lemma_index_of_key_found(s, p.key());
}

/// After a removal no record has the removed id.
pub proof fn law_removed_key_absent<T: Keyed>(s: Seq<T>, id: Seq<char>)
    ensures
        !has_key(without_key(s, id), id),
    decreases s.len(),
{
    if s.len() > 0 {
        law_removed_key_absent(s.drop_last(), id);
        let r = without_key(s.drop_last(), id);
        if s.last().key() != id {
            let w = r.push(s.last());
            assert forall|i: int| 0 <= i < w.len() implies (#[trigger] w[i]).key() != id by {
                if i < r.len() {
                    assert(w[i] == r[i]);
                }
            }
        }
    }
}

/// Removing an id that no record has changes nothing.
pub proof fn law_remove_absent_is_identity<T: Keyed>(s: Seq<T>, id: Seq<char>)
    requires
        !has_key(s, id),
    ensures
        without_key(s, id) == s,
    decreases s.len(),
{
    if s.len() > 0 {
        assert(!has_key(s.drop_last(), id)) by {
            if has_key(s.drop_last(), id) {
                let w = choose|w: int| 0 <= w < s.len() - 1 && (#[trigger] s.drop_last()[w]).key()
                    == id;
                assert(s[w] == s.drop_last()[w]);
            }
        }
        law_remove_absent_is_identity(s.drop_last(), id);
        assert(s.last() == s[s.len() - 1]);
        assert(s.drop_last().push(s.last()) =~= s);
    }
}

/// Removing the id of a record that was just added to records without that id
/// gives the records back.
pub proof fn law_remove_undoes_add<T: Keyed>(s: Seq<T>, p: T)
    requires
        !has_key(s, p.key()),
    ensures
        without_key(s.push(p), p.key()) == s,
{
    assert(s.push(p).drop_last() =~= s);
    law_remove_absent_is_identity(s, p.key());
}

/// Toggling an auto-switch rule sets exactly its flag: the first rule with
/// the id ends up enabled or disabled as asked, whatever it was before, with
/// every other field kept; all other rules stay as they were; with no rule of
/// that id nothing changes.
pub proof fn law_toggle_switch_rule_sets_flag(
    s: Seq<AutoSwitchRule>,
    id: Seq<char>,
    enabled: bool,
    i: int,
)
    ensures
        switch_rules_toggled(s, id, enabled).len() == s.len(),
        (0 <= i < s.len() && s[i].id@ == id && forall|j: int|
            0 <= j < i ==> (#[trigger] s[j]).id@ != id) ==> ({
            let t = switch_rules_toggled(s, id, enabled);
            &&& t[i].enabled == enabled
            &&& t[i].id == s[i].id
            &&& t[i].app_label == s[i].app_label
            &&& t[i].match_name == s[i].match_name
            &&& t[i].app_path == s[i].app_path
            &&& t[i].profile_id == s[i].profile_id
            &&& forall|j: int| 0 <= j < s.len() && j != i ==> t[j] == s[j]
        }),
        (forall|j: int| 0 <= j < s.len() ==> (#[trigger] s[j]).id@ != id) ==> switch_rules_toggled(
            s,
            id,
            enabled,
        ) == s,
{
    lemma_index_of_key_found(s, id);
    if 0 <= i < s.len() && s[i].id@ == id && forall|j: int|
        0 <= j < i ==> (#[trigger] s[j]).id@ != id {
        lemma_index_of_key(s, id, i);
    }
    if forall|j: int| 0 <= j < s.len() ==> (#[trigger] s[j]).id@ != id {
        lemma_index_of_key(s, id, s.len() as int);
    }
}

/// Toggling an app rule sets exactly its flag: the first rule with the id
/// ends up enabled or disabled as asked, whatever it was before, with every
/// other field kept; all other rules stay as they were; with no rule of that
/// id nothing changes.
pub proof fn law_toggle_rule_sets_flag(s: Seq<AppRule>, id: Seq<char>, enabled: bool, i: int)
    ensures
        rules_toggled(s, id, enabled).len() == s.len(),
        (0 <= i < s.len() && s[i].id@ == id && forall|j: int|
            0 <= j < i ==> (#[trigger] s[j]).id@ != id) ==> ({
            let t = rules_toggled(s, id, enabled);
            &&& t[i].enabled == enabled
            &&& t[i].id == s[i].id
            &&& t[i].app_name == s[i].app_name
            &&& t[i].app_path == s[i].app_path
            &&& t[i].profile_id == s[i].profile_id
            &&& forall|j: int| 0 <= j < s.len() && j != i ==> t[j] == s[j]
        }),
        (forall|j: int| 0 <= j < s.len() ==> (#[trigger] s[j]).id@ != id) ==> rules_toggled(
            s,
            id,
            enabled,
        ) == s,
{
    lemma_index_of_key_found(s, id);
    if 0 <= i < s.len() && s[i].id@ == id && forall|j: int|
        0 <= j < i ==> (#[trigger] s[j]).id@ != id {
        lemma_index_of_key(s, id, i);
    }
    if forall|j: int| 0 <= j < s.len() ==> (#[trigger] s[j]).id@ != id {
        lemma_index_of_key(s, id, s.len() as int);
    }
}

} // verus!
