//! How local keys reach the remote desktop.

use crate::text;
use vstd::prelude::*;

verus! {

/// A local key, what it does remotely, and where that holds.
#[derive(Debug)]
pub struct KeyMapping {
    pub local: String,
    pub remote: String,
    pub scope: String,
}

/// What a `KeyMapping` holds.
pub struct MappingModel {
    pub local: Seq<char>,
    pub remote: Seq<char>,
    pub scope: Seq<char>,
}

impl View for KeyMapping {
    type V = MappingModel;

    open spec fn view(&self) -> MappingModel {
        MappingModel { local: self.local@, remote: self.remote@, scope: self.scope@ }
    }
}

/// What mappings hold.
pub open spec fn all_mappings(mappings: Seq<KeyMapping>) -> Seq<MappingModel> {
    mappings.map_values(|m: KeyMapping| m@)
}

/// A mapping of three texts.
pub open spec fn mapping(local: Seq<char>, remote: Seq<char>, scope: Seq<char>) -> MappingModel {
    MappingModel { local, remote, scope }
}

fn new_mapping(local: &str, remote: &str, scope: &str) -> (m: KeyMapping)
    ensures
        m@ == mapping(local@, remote@, scope@),
{
    KeyMapping { local: local.to_owned(), remote: remote.to_owned(), scope: scope.to_owned() }
}

/// A copy of mappings.
pub fn copy_mappings(mappings: &Vec<KeyMapping>) -> (copy: Vec<KeyMapping>)
    ensures
        all_mappings(copy@) == all_mappings(mappings@),
{
    let mut copy: Vec<KeyMapping> = Vec::new();
    for i in 0..mappings.len()
        invariant
            copy@.len() == i,
            forall|k: int| 0 <= k < i ==> #[trigger] copy@[k]@ == mappings@[k]@,
    {
        let m = &mappings[i];
        copy.push(new_mapping(m.local.as_str(), m.remote.as_str(), m.scope.as_str()));
    }
    assert(all_mappings(copy@) =~= all_mappings(mappings@));
    copy
}

/// Whether a profile is for keyboards without a command key.
pub open spec fn uses_control(profile: Seq<char>) -> bool {
    "Windows"@.is_prefix_of(profile) || "Linux"@.is_prefix_of(profile)
}

/// The mappings of a profile.
pub open spec fn mappings_of(profile: Seq<char>) -> Seq<MappingModel> {
    let (copy, paste, switch) = if uses_control(profile) {
        ("Ctrl C"@, "Ctrl V"@, "Alt Tab"@)
    } else {
        ("⌘ C"@, "⌘ V"@, "⌘ `"@)
    };
    seq![
        mapping(copy, "复制"@, "全局"@),
        mapping(paste, "粘贴"@, "全局"@),
        mapping("⌘ ⌥ Esc"@, "强制退出"@, "macOS"@),
        mapping("Ctrl Alt Del"@, "安全选项"@, "Windows"@),
        mapping(switch, "切换远程窗口"@, "会话"@),
    ]
}

/// The mappings of a profile.
pub fn profile_mappings(profile: &str) -> (mappings: Vec<KeyMapping>)
    ensures
        all_mappings(mappings@) == mappings_of(profile@),
{
    let control = text::starts_with(profile, "Windows") || text::starts_with(profile, "Linux");
    let (copy, paste, switch) = if control {
        ("Ctrl C", "Ctrl V", "Alt Tab")
    } else {
        ("⌘ C", "⌘ V", "⌘ `")
    };
    let mut mappings: Vec<KeyMapping> = Vec::new();
    mappings.push(new_mapping(copy, "复制", "全局"));
    mappings.push(new_mapping(paste, "粘贴", "全局"));
    mappings.push(new_mapping("⌘ ⌥ Esc", "强制退出", "macOS"));
    mappings.push(new_mapping("Ctrl Alt Del", "安全选项", "Windows"));
    mappings.push(new_mapping(switch, "切换远程窗口", "会话"));
    assert(all_mappings(mappings@) =~= mappings_of(profile@));
    mappings
}

/// The mappings before the user changes anything.
pub fn default_mappings() -> (mappings: Vec<KeyMapping>)
    ensures
        all_mappings(mappings@) == mappings_of("macOS 默认"@),
{
    profile_mappings("macOS 默认")
}

/// The mapping that is added on request.
pub open spec fn common_mapping() -> MappingModel {
    mapping("F11"@, "显示桌面"@, "会话"@)
}

/// The mapping that is added on request.
pub fn new_common_mapping() -> (m: KeyMapping)
    ensures
        m@ == common_mapping(),
{
    new_mapping("F11", "显示桌面", "会话")
}

/// The name of a copied profile: marked as a copy once, however often it is
/// copied.
pub open spec fn copied_profile(profile: Seq<char>) -> Seq<char> {
    text::without_suffixes(profile, " 副本"@) + " 副本"@
}

/// The name of a copied profile.
pub fn copy_profile(profile: &str) -> (name: String)
    ensures
        name@ == copied_profile(profile@),
{
    let mut name = text::trim_suffixes(profile, " 副本");
    name.append(" 副本");
    name
}

/// A copy of a copy has the name of the copy.
pub proof fn law_copy_is_marked_once(profile: Seq<char>)
    ensures
        copied_profile(copied_profile(profile)) == copied_profile(profile),
{
    reveal_strlit(" 副本");
    let suffix = " 副本"@;
    let name = text::without_suffixes(profile, suffix);
    let marked = name + suffix;
    assert(marked.skip(marked.len() - suffix.len()) =~= suffix);
    assert(marked.take(marked.len() - suffix.len()) =~= name);
    lemma_no_suffix_left(profile, suffix);
}

proof fn lemma_no_suffix_left(s: Seq<char>, suffix: Seq<char>)
    ensures
        text::without_suffixes(text::without_suffixes(s, suffix), suffix)
            == text::without_suffixes(s, suffix),
    decreases s.len(),
{
    if 0 < suffix.len() <= s.len() && suffix == s.skip(s.len() - suffix.len()) {
        lemma_no_suffix_left(s.take(s.len() - suffix.len()), suffix);
    }
}

/// The profiles for Windows and Linux keyboards use the control key where the others
/// use the command key; the rest of the mappings is the same for all.
pub proof fn law_profiles_differ_in_their_command_key(profile: Seq<char>)
    ensures
        ({
            let mappings = mappings_of(profile);
            let control = "Windows"@.is_prefix_of(profile) || "Linux"@.is_prefix_of(profile);
            &&& mappings.len() == 5
            &&& control ==> mappings[0].local == "Ctrl C"@ && mappings[1].local == "Ctrl V"@
                && mappings[4].local == "Alt Tab"@
            &&& !control ==> mappings[0].local == "⌘ C"@ && mappings[1].local == "⌘ V"@
                && mappings[4].local == "⌘ `"@
            &&& mappings[0].remote == "复制"@
            &&& mappings[1].remote == "粘贴"@
            &&& mappings[2] == mapping("⌘ ⌥ Esc"@, "强制退出"@, "macOS"@)
            &&& mappings[3] == mapping("Ctrl Alt Del"@, "安全选项"@, "Windows"@)
            &&& mappings[4].remote == "切换远程窗口"@
        }),
{
}

/// A copied profile is marked at its end, and keeps the name in front of the mark.
pub proof fn law_copies_keep_their_name(profile: Seq<char>)
    ensures
        " 副本"@.is_suffix_of(copied_profile(profile)),
        !" 副本"@.is_suffix_of(profile) ==> copied_profile(profile) == profile
            + " 副本"@,
        copied_profile(profile + " 副本"@) == copied_profile(profile),
{
    reveal_strlit(" 副本");
    let mark = " 副本"@;
    assert(mark.len() > 0);
    text::law_suffixes_go_away(profile, mark);
    let copy = copied_profile(profile);
    assert(mark =~= copy.subrange(copy.len() - mark.len(), copy.len() as int));
}

} // verus!
