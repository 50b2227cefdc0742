//! The configuration: where the dotfiles live, where backups go, and the
//! profiles, each a list of links from a file of the repository to a target.

use vstd::prelude::*;

verus! {

/// One link of a profile: `source` is relative to the repository, `target` is
/// where the symlink is made.
pub struct Link {
    pub source: String,
    pub target: String,
}

/// A named set of links, synced together.
pub struct Profile {
    pub links: Vec<Link>,
}

/// The `[settings]` section: the repository and the backup directory.
pub struct Settings {
    pub repo_dir: String,
    pub backup_dir: String,
}

/// The whole configuration. The profiles are kept in a list of pairs of a
/// name and a profile; in a well-formed configuration no name occurs twice.
pub struct Config {
    pub settings: Settings,
    pub profiles: Vec<(String, Profile)>,
}

/// A link as plain values.
pub struct LinkView {
    pub source: Seq<char>,
    pub target: Seq<char>,
}

/// A configuration as plain values.
pub struct ConfigView {
    pub repo_dir: Seq<char>,
    pub backup_dir: Seq<char>,
    pub profiles: Seq<(Seq<char>, Seq<LinkView>)>,
}

impl View for Link {
    type V = LinkView;

    open spec fn view(&self) -> LinkView {
        LinkView { source: self.source@, target: self.target@ }
    }
}

impl View for Profile {
    type V = Seq<LinkView>;

    open spec fn view(&self) -> Seq<LinkView> {
        self.links@.map_values(|l: Link| l@)
    }
}

impl View for Config {
    type V = ConfigView;

    open spec fn view(&self) -> ConfigView {
        ConfigView {
            repo_dir: self.settings.repo_dir@,
            backup_dir: self.settings.backup_dir@,
            profiles: self.profiles@.map_values(|e: (String, Profile)| (e.0@, e.1@)),
        }
    }
}

impl ConfigView {
    /// No profile name occurs twice: the profiles form a map from names.
    pub open spec fn names_unique(self) -> bool {
        self.names().no_duplicates()
    }

    /// The names of the profiles, in the order in which they are kept.
    pub open spec fn names(self) -> Seq<Seq<char>> {
        self.profiles.map_values(|e: (Seq<char>, Seq<LinkView>)| e.0)
    }
}

/// The message that validation gives for the profiles from index `i` on, if any
/// of them breaks a rule: the first such profile decides.
pub open spec fn profile_error_from(profiles: Seq<(Seq<char>, Seq<LinkView>)>, i: int) -> Option<
    Seq<char>,
>
    decreases profiles.len() - i,
{
    if i < 0 || i >= profiles.len() {
        None
    } else if profiles[i].0.len() == 0 {
        Some("Profile names cannot be empty"@)
    } else if profiles[i].1.len() == 0 {
        Some("Profile '"@ + profiles[i].0 + "' has no links defined"@)
    } else {
        profile_error_from(profiles, i + 1)
    }
}

/// What is wrong with a configuration, if anything.
pub open spec fn validation_error(c: ConfigView) -> Option<Seq<char>> {
    if c.profiles.len() == 0 {
        Some("Configuration must contain at least one profile"@)
    } else {
        profile_error_from(c.profiles, 0)
    }
}

/// Every profile from index `i` on has a name and at least one link.
pub open spec fn profiles_sound_from(profiles: Seq<(Seq<char>, Seq<LinkView>)>, i: int) -> bool {
    forall|k: int| i <= k < profiles.len() ==> #[trigger] profiles[k].0.len() > 0
        && profiles[k].1.len() > 0
}

proof fn lemma_profile_error_none(profiles: Seq<(Seq<char>, Seq<LinkView>)>, i: int)
    requires
        0 <= i <= profiles.len(),
    ensures
        profile_error_from(profiles, i) is None <==> profiles_sound_from(profiles, i),
    decreases profiles.len() - i,
{
    if i < profiles.len() {
        lemma_profile_error_none(profiles, i + 1);
        if profiles_sound_from(profiles, i) {
            assert(profiles[i].0.len() > 0 && profiles[i].1.len() > 0);
        }
    }
}

/// A configuration passes validation exactly when it has at least one profile
/// and every profile has a non-empty name and at least one link.
pub proof fn lemma_validation_passes_iff(c: ConfigView)
    ensures
        validation_error(c) is None <==> (c.profiles.len() > 0 && profiles_sound_from(c.profiles, 0)),
{
    lemma_profile_error_none(c.profiles, 0);
}

impl Config {
    /// Checks that the configuration has at least one profile, and that every
    /// profile has a non-empty name and at least one link. The first profile
    /// that breaks a rule decides the message.
    pub fn validate(&self) -> (r: Result<(), String>)
        ensures
            r is Ok <==> validation_error(self@) is None,
            r matches Err(m) ==> validation_error(self@) == Some(m@),
    {
        if self.profiles.len() == 0 {
            return Err("Configuration must contain at least one profile".to_owned());
        }
        let n = self.profiles.len();
        let ghost ps = self@.profiles;
        for i in 0..n
            invariant
                n == self.profiles@.len(),
                ps == self@.profiles,
                profile_error_from(ps, 0) == profile_error_from(ps, i as int),
        {
            let name = &self.profiles[i].0;
            let profile = &self.profiles[i].1;
            assert(ps[i as int].0 == name@);
            assert(ps[i as int].1.len() == profile.links@.len());
            if name.unicode_len() == 0 {
                return Err("Profile names cannot be empty".to_owned());
            }
            if profile.links.len() == 0 {
                let mut m = "Profile '".to_owned();
                m.append(name.as_str());
                m.append("' has no links defined");
                return Err(m);
            }
        }
        Ok(())
    }
}

} // verus!
