//! What happens in the settings window.

use crate::frame_rate;
use crate::keymap;
use crate::state::{ArdVideoQuality, SettingsSection, ThemePreference, WindowKind};
use crate::viewer;
use crate::viewer::action;
use crate::viewer::action::{Action, ActionModel};
use crate::viewer::{ArdViewer, Preferences, PreferencesModel, Step, ViewerModel};
use vstd::prelude::*;

verus! {

/// The state with other preferences.
pub open spec fn with_preferences(state: ViewerModel, preferences: PreferencesModel) -> ViewerModel {
    ViewerModel { preferences, ..state }
}

/// A page of the settings is selected.
pub open spec fn section_selected(state: ViewerModel, section: SettingsSection) -> Step {
    if section != state.preferences.settings_section {
        viewer::asking(
            with_preferences(
                state,
                PreferencesModel { settings_section: section, ..state.preferences },
            ),
            ActionModel::RestartSettingsTransition,
        )
    } else {
        viewer::quiet(state)
    }
}

/// Preferences changed and are kept.
pub open spec fn preferences_kept(state: ViewerModel, preferences: PreferencesModel) -> Step {
    viewer::kept(with_preferences(state, preferences))
}

/// The preferences with the mappings of a profile.
pub open spec fn profile_chosen(preferences: PreferencesModel, profile: Seq<char>) -> PreferencesModel {
    PreferencesModel {
        mappings: keymap::mappings_of(profile),
        key_profile: profile,
        ..preferences
    }
}

/// The appearance changed.
pub open spec fn theme_changed(state: ViewerModel, theme: ThemePreference) -> Step {
    let after = with_preferences(
        state,
        PreferencesModel { theme_preference: theme, ..state.preferences },
    );
    Step {
        state: after,
        actions: seq![
            ActionModel::SetDark(viewer::is_dark(after.preferences)),
            viewer::saving(after, true),
        ],
    }
}

/// The system's appearance changed; it counts if the viewer follows it.
pub open spec fn system_theme_changed(state: ViewerModel, dark: bool) -> Step {
    let after = with_preferences(
        state,
        PreferencesModel { system_dark: dark, ..state.preferences },
    );
    if after.preferences.theme_preference is System {
        viewer::asking(after, ActionModel::SetDark(dark))
    } else {
        viewer::quiet(after)
    }
}

/// The system's appearance became known: the first window opens.
pub open spec fn system_theme_known(state: ViewerModel, dark: bool) -> Step {
    let after = with_preferences(
        state,
        PreferencesModel { system_dark: dark, ..state.preferences },
    );
    Step {
        state: after,
        actions: seq![
            ActionModel::SetDark(viewer::is_dark(after.preferences)),
            ActionModel::OpenWindow(WindowKind::Connection),
        ],
    }
}

/// The profile is copied.
pub open spec fn preset_copied(state: ViewerModel) -> Step {
    viewer::kept(
        viewer::saying(
            with_preferences(
                state,
                PreferencesModel {
                    key_profile: keymap::copied_profile(state.preferences.key_profile),
                    ..state.preferences
                },
            ),
            "已复制按键预设"@,
        ),
    )
}

/// The mappings are as in the beginning.
pub open spec fn mappings_reset(state: ViewerModel) -> ViewerModel {
    viewer::saying(
        with_preferences(
            state,
            PreferencesModel {
                mappings: keymap::mappings_of("macOS 默认"@),
                ..state.preferences
            },
        ),
        "按键映射已恢复默认"@,
    )
}

/// A common mapping is added.
pub open spec fn mapping_added(state: ViewerModel) -> ViewerModel {
    viewer::saying(
        with_preferences(
            state,
            PreferencesModel {
                mappings: state.preferences.mappings.push(keymap::common_mapping()),
                ..state.preferences
            },
        ),
        "已添加常用映射"@,
    )
}

/// A mapping is removed.
pub open spec fn mapping_removed(state: ViewerModel, index: nat) -> ViewerModel {
    if index < state.preferences.mappings.len() {
        viewer::saying(
            with_preferences(
                state,
                PreferencesModel {
                    mappings: state.preferences.mappings.remove(index as int),
                    ..state.preferences
                },
            ),
            "已移除按键映射"@,
        )
    } else {
        state
    }
}

impl Preferences {
    fn choose_profile(&mut self, profile: String)
        ensures
            final(self)@ == profile_chosen(old(self)@, profile@),
    {
        self.mappings = keymap::profile_mappings(profile.as_str());
        self.key_profile = profile;
    }

    fn add_mapping(&mut self)
        ensures
            final(self)@ == (PreferencesModel {
                mappings: old(self)@.mappings.push(keymap::common_mapping()),
                ..old(self)@
            }),
    {
        let ghost before = self.mappings@;
        let added = keymap::new_common_mapping();
        self.mappings.push(added);
        assert(keymap::all_mappings(self.mappings@) =~= keymap::all_mappings(before).push(added@));
    }

    fn remove_mapping(&mut self, index: usize)
        requires
            index < old(self)@.mappings.len(),
        ensures
            final(self)@ == (PreferencesModel {
                mappings: old(self)@.mappings.remove(index as int),
                ..old(self)@
            }),
    {
        let ghost before = self.mappings@;
        self.mappings.remove(index);
        assert(keymap::all_mappings(self.mappings@) =~= keymap::all_mappings(before).remove(
            index as int,
        ));
    }
}

impl ArdViewer {
    pub(crate) fn select_section(&mut self, section: SettingsSection) -> (actions: Vec<Action>)
        ensures
            (Step { state: final(self)@, actions: action::all_actions(actions@) })
                == section_selected(old(self)@, section),
    {
        if section != self.preferences.settings_section {
            self.preferences.settings_section = section;
            action::one(Action::RestartSettingsTransition)
        } else {
            action::none()
        }
    }

    pub(crate) fn change_quality(&mut self, quality: ArdVideoQuality) -> (actions: Vec<Action>)
        ensures
            (Step { state: final(self)@, actions: action::all_actions(actions@) })
                == preferences_kept(
                old(self)@,
                PreferencesModel { quality, ..old(self)@.preferences },
            ),
    {
        self.preferences.quality = quality;
        self.keep()
    }

    pub(crate) fn change_frame_rate(&mut self, value: &str) -> (actions: Vec<Action>)
        ensures
            (Step { state: final(self)@, actions: action::all_actions(actions@) })
                == preferences_kept(
                old(self)@,
                PreferencesModel {
                    frame_rate: frame_rate::typed_rate(value@),
                    ..old(self)@.preferences
                },
            ),
    {
        self.preferences.frame_rate = frame_rate::rate_from_input(value);
        self.keep()
    }

    pub(crate) fn change_profile(&mut self, profile: String) -> (actions: Vec<Action>)
        ensures
            (Step { state: final(self)@, actions: action::all_actions(actions@) })
                == preferences_kept(
                old(self)@,
                profile_chosen(old(self)@.preferences, profile@),
            ),
    {
        self.preferences.choose_profile(profile);
        self.keep()
    }

    pub(crate) fn change_auto_adapt(&mut self, value: bool) -> (actions: Vec<Action>)
        ensures
            (Step { state: final(self)@, actions: action::all_actions(actions@) })
                == preferences_kept(
                old(self)@,
                PreferencesModel { auto_adapt_keyboard: value, ..old(self)@.preferences },
            ),
    {
        self.preferences.auto_adapt_keyboard = value;
        self.keep()
    }

    pub(crate) fn change_capture(&mut self, value: bool) -> (actions: Vec<Action>)
        ensures
            (Step { state: final(self)@, actions: action::all_actions(actions@) })
                == preferences_kept(
                old(self)@,
                PreferencesModel { capture_system_shortcuts: value, ..old(self)@.preferences },
            ),
    {
        self.preferences.capture_system_shortcuts = value;
        self.keep()
    }

    pub(crate) fn change_hud(&mut self, value: bool) -> (actions: Vec<Action>)
        ensures
            (Step { state: final(self)@, actions: action::all_actions(actions@) })
                == preferences_kept(
                old(self)@,
                PreferencesModel { show_performance_hud: value, ..old(self)@.preferences },
            ),
    {
        self.preferences.show_performance_hud = value;
        self.keep()
    }

    pub(crate) fn change_theme(&mut self, theme: ThemePreference) -> (actions: Vec<Action>)
        ensures
            (Step { state: final(self)@, actions: action::all_actions(actions@) }) == theme_changed(
                old(self)@,
                theme,
            ),
    {
        self.preferences.theme_preference = theme;
        let mut actions = action::one(Action::SetDark(self.effective_dark()));
        action::push(&mut actions, self.persist_config(true));
        assert(action::all_actions(actions@) =~= theme_changed(old(self)@, theme).actions);
        actions
    }

    pub(crate) fn follow_system_theme(&mut self, dark: bool) -> (actions: Vec<Action>)
        ensures
            (Step { state: final(self)@, actions: action::all_actions(actions@) })
                == system_theme_changed(old(self)@, dark),
    {
        self.preferences.system_dark = dark;
        if self.preferences.theme_preference == ThemePreference::System {
            action::one(Action::SetDark(dark))
        } else {
            action::none()
        }
    }

    pub(crate) fn start_with_theme(&mut self, dark: bool) -> (actions: Vec<Action>)
        ensures
            (Step { state: final(self)@, actions: action::all_actions(actions@) })
                == system_theme_known(old(self)@, dark),
    {
        self.preferences.system_dark = dark;
        let mut actions = action::one(Action::SetDark(self.effective_dark()));
        action::push(&mut actions, Action::OpenWindow(WindowKind::Connection));
        assert(action::all_actions(actions@) =~= system_theme_known(old(self)@, dark).actions);
        actions
    }

    pub(crate) fn copy_preset(&mut self) -> (actions: Vec<Action>)
        ensures
            (Step { state: final(self)@, actions: action::all_actions(actions@) })
                == preset_copied(old(self)@),
    {
        self.preferences.key_profile = keymap::copy_profile(self.preferences.key_profile.as_str());
        self.say("已复制按键预设");
        self.keep()
    }

    pub(crate) fn reset_mappings(&mut self)
        ensures
            final(self)@ == mappings_reset(old(self)@),
    {
        self.preferences.mappings = keymap::default_mappings();
        self.say("按键映射已恢复默认");
    }

    pub(crate) fn add_mapping(&mut self)
        ensures
            final(self)@ == mapping_added(old(self)@),
    {
        self.preferences.add_mapping();
        self.say("已添加常用映射");
    }

    pub(crate) fn edit_mapping(&mut self, index: usize)
        ensures
            final(self)@ == mapping_removed(old(self)@, index as nat),
    {
        if index < self.preferences.mappings.len() {
            self.preferences.remove_mapping(index);
            self.say("已移除按键映射");
        }
    }

    pub(crate) fn export_shortcuts(&self) -> (actions: Vec<Action>)
        ensures
            action::all_actions(actions@) == seq![
                ActionModel::ExportShortcuts(self@.preferences.mappings),
            ],
    {
        action::one(Action::ExportShortcuts(keymap::copy_mappings(&self.preferences.mappings)))
    }
}

/// The appearance follows the system exactly if the user asks for that; a chosen
/// one stays whatever the system does.
pub proof fn law_chosen_theme_overrides_the_system(state: ViewerModel, dark: bool)
    ensures
        ({
            let after = system_theme_changed(state, dark).state.preferences;
            viewer::is_dark(after) == match state.preferences.theme_preference {
                ThemePreference::System => dark,
                ThemePreference::Light => false,
                ThemePreference::Dark => true,
            }
        }),
        !(state.preferences.theme_preference is System) ==> system_theme_changed(
            state,
            dark,
        ).actions == Seq::<ActionModel>::empty(),
{
}

} // verus!
