//! The icons that come with the program.
use vstd::prelude::*;

use crate::text::{after_last, same_text};
use crate::text;

verus! {

pub const ICON_CAT: &'static str = "icons/cil--cat.svg";

pub const ICON_BOOKMARK_FILLED: &'static str = "icons/ix--bookmark-filled.svg";

pub const ICON_BOOKMARK: &'static str = "icons/ix--bookmark.svg";

pub const ICON_CONFIGURATION: &'static str = "icons/ix--configuration.svg";

pub const ICON_DEVICE_UNAVAILABLE: &'static str = "icons/ix--generic-device-io-unavailable.svg";

pub const ICON_MIX: &'static str = "icons/ix--mix.svg";

pub const ICON_ROUTE: &'static str = "icons/ix--route.svg";

pub const ICON_SAVE: &'static str = "icons/ix--save-all.svg";

pub const ICON_SOUND: &'static str = "icons/ix--sound-loud-filled.svg";

pub const ICON_MUTE: &'static str = "icons/ix--sound-mute-filled.svg";

pub const ICON_TYPE_PHYSICAL: &'static str = "icons/tdesign--audio.svg";

pub const ICON_TYPE_APP: &'static str = "icons/tdesign--app.svg";

pub const ICON_TYPE_VIRTUAL: &'static str = "icons/hugeicons--audio-wave-02.svg";

pub const ICON_ARROW_DOWN: &'static str = "icons/eva--arrow-down-fill.svg";

pub const ICON_ARROW_UP: &'static str = "icons/eva--arrow-up-fill.svg";

/// The icons under `icons`.
#[derive(Debug)]
pub struct Assets;

/// The paths of the icons.
pub open spec fn icon_paths() -> Seq<&'static str> {
    seq![
        ICON_CAT,
        ICON_BOOKMARK_FILLED,
        ICON_BOOKMARK,
        ICON_CONFIGURATION,
        ICON_DEVICE_UNAVAILABLE,
        ICON_MIX,
        ICON_ROUTE,
        ICON_SAVE,
        ICON_SOUND,
        ICON_MUTE,
        ICON_TYPE_PHYSICAL,
        ICON_TYPE_APP,
        ICON_TYPE_VIRTUAL,
        ICON_ARROW_DOWN,
        ICON_ARROW_UP,
    ]
}

impl Assets {
    /// The paths of the icons.
    pub fn paths(&self) -> (paths: Vec<&'static str>)
        ensures
            paths@ == icon_paths(),
    {
        let mut paths: Vec<&'static str> = Vec::new();
        paths.push(ICON_CAT);
        paths.push(ICON_BOOKMARK_FILLED);
        paths.push(ICON_BOOKMARK);
        paths.push(ICON_CONFIGURATION);
        paths.push(ICON_DEVICE_UNAVAILABLE);
        paths.push(ICON_MIX);
        paths.push(ICON_ROUTE);
        paths.push(ICON_SAVE);
        paths.push(ICON_SOUND);
        paths.push(ICON_MUTE);
        paths.push(ICON_TYPE_PHYSICAL);
        paths.push(ICON_TYPE_APP);
        paths.push(ICON_TYPE_VIRTUAL);
        paths.push(ICON_ARROW_DOWN);
        paths.push(ICON_ARROW_UP);
        assert(paths@ =~= icon_paths());
        paths
    }

    /// The icon with a path, where there is one.
    pub fn find(&self, path: &str) -> (place: Option<usize>)
        ensures
            match place {
                Some(at) => {
                    &&& at < icon_paths().len()
                    &&& icon_paths()[at as int]@ == path@
                    &&& forall|i: int| 0 <= i < at ==> (#[trigger] icon_paths()[i])@ != path@
                },
                None => forall|i: int|
                    0 <= i < icon_paths().len() ==> (#[trigger] icon_paths()[i])@ != path@,
            },
    {
        let paths = self.paths();
        let mut at: usize = 0;
        while at < paths.len()
            invariant
                at <= paths@.len(),
                paths@ == icon_paths(),
                forall|i: int| 0 <= i < at ==> (#[trigger] icon_paths()[i])@ != path@,
            decreases paths@.len() - at,
        {
            if same_text(paths[at], path) {
                return Some(at);
            }
            at = at + 1;
        }
        None
    }

    /// The names of the files in a directory.
    pub fn list(&self, path: &str) -> (names: Vec<String>)
        ensures
            path@ != "icons"@ ==> names@.len() == 0,
            path@ == "icons"@ ==> {
                &&& names@.len() == icon_paths().len()
                &&& forall|i: int|
                    0 <= i < icon_paths().len() ==> (#[trigger] names@[i])@ == text::behind_last(
                        icon_paths()[i]@,
                        '/',
                    )
            },
    {
        let mut names: Vec<String> = Vec::new();
        if !same_text(path, "icons") {
            return names;
        }
        let paths = self.paths();
        let mut at: usize = 0;
        while at < paths.len()
            invariant
                at <= paths@.len(),
                paths@ == icon_paths(),
                names@.len() == at,
                forall|i: int|
                    0 <= i < at ==> (#[trigger] names@[i])@ == text::behind_last(
                        icon_paths()[i]@,
                        '/',
                    ),
            decreases paths@.len() - at,
        {
            names.push(after_last(paths[at], '/').to_owned());
            at = at + 1;
        }
        names
    }
}

/// Every icon is offered: the list holds fifteen of them, each in its place.
pub proof fn law_every_icon_is_offered()
    ensures
        icon_paths().len() == 15,
        icon_paths()[0] == ICON_CAT,
        icon_paths()[1] == ICON_BOOKMARK_FILLED,
        icon_paths()[2] == ICON_BOOKMARK,
        icon_paths()[3] == ICON_CONFIGURATION,
        icon_paths()[4] == ICON_DEVICE_UNAVAILABLE,
        icon_paths()[5] == ICON_MIX,
        icon_paths()[6] == ICON_ROUTE,
        icon_paths()[7] == ICON_SAVE,
        icon_paths()[8] == ICON_SOUND,
        icon_paths()[9] == ICON_MUTE,
        icon_paths()[10] == ICON_TYPE_PHYSICAL,
        icon_paths()[11] == ICON_TYPE_APP,
        icon_paths()[12] == ICON_TYPE_VIRTUAL,
        icon_paths()[13] == ICON_ARROW_DOWN,
        icon_paths()[14] == ICON_ARROW_UP,
{
}

} // verus!
