//! The application's bundled images, found by path.
use crate::window::starts_with;
use vstd::prelude::*;

verus! {

/// A bundled image.
#[derive(Debug, Clone, Copy, PartialEq, Eq, Structural)]
pub enum Asset {
    MenuIcon,
    PanelLeft,
    PanelLeftOpen,
    AppIcon,
}

/// The path of each bundled image, in listing order.
pub open spec fn asset_paths() -> Seq<(Seq<char>, Asset)> {
    seq![
        ("icons/menu.svg"@, Asset::MenuIcon),
        ("icons/panel-left.svg"@, Asset::PanelLeft),
        ("icons/panel-left-open.svg"@, Asset::PanelLeftOpen),
        ("zenvi-icon.svg"@, Asset::AppIcon),
    ]
}

/// `p` without a leading `assets/`.
pub open spec fn without_assets_prefix(p: Seq<char>) -> Seq<char> {
    if starts_with(p, "assets/"@) {
        p.skip(7)
    } else {
        p
    }
}

/// The image at `path` (with or without a leading `assets/`), if any.
pub open spec fn asset_at(path: Seq<char>) -> Option<Asset> {
    let p = without_assets_prefix(path);
    if p == "icons/menu.svg"@ {
        Some(Asset::MenuIcon)
    } else if p == "icons/panel-left.svg"@ {
        Some(Asset::PanelLeft)
    } else if p == "icons/panel-left-open.svg"@ {
        Some(Asset::PanelLeftOpen)
    } else if p == "zenvi-icon.svg"@ {
        Some(Asset::AppIcon)
    } else {
        None
    }
}

/// The paths of the bundled images among the first `n` that start with
/// `prefix`, in listing order.
pub open spec fn listed_upto(prefix: Seq<char>, n: int) -> Seq<Seq<char>>
    decreases n,
{
    if n <= 0 {
        Seq::empty()
    } else {
        let prev = listed_upto(prefix, n - 1);
        let p = asset_paths()[n - 1].0;
        if starts_with(p, prefix) {
            prev.push(p)
        } else {
            prev
        }
    }
}

/// The bundled images.
pub struct Assets;

impl Assets {
    /// The image at `path` (see `asset_at`).
    pub fn load(&self, path: &str) -> (res: Option<Asset>)
        ensures
            res == asset_at(path@),
    {
        let cs = crate::text::chars_of(path);
        proof {
            reveal_strlit("assets/");
        }
        let p: Vec<char> = if crate::window::chars_start_with(&cs, "assets/") {
            let mut rest: Vec<char> = Vec::new();
            let mut i: usize = 7;
            while i < cs.len()
                invariant
                    7 <= i <= cs@.len(),
                    rest@ == cs@.subrange(7, i as int),
                decreases cs@.len() - i,
            {
                rest.push(cs[i]);
                i = i + 1;
                proof {
                    assert(rest@ =~= cs@.subrange(7, i as int));
                }
            }
            proof {
                assert(rest@ =~= cs@.skip(7));
            }
            rest
        } else {
            cs
        };
        if crate::text::chars_eq(&p, "icons/menu.svg") {
            Some(Asset::MenuIcon)
        } else if crate::text::chars_eq(&p, "icons/panel-left.svg") {
            Some(Asset::PanelLeft)
        } else if crate::text::chars_eq(&p, "icons/panel-left-open.svg") {
            Some(Asset::PanelLeftOpen)
        } else if crate::text::chars_eq(&p, "zenvi-icon.svg") {
            Some(Asset::AppIcon)
        } else {
            None
        }
    }

    /// The paths of the bundled images that start with `prefix`.
    pub fn list(&self, prefix: &str) -> (res: Vec<String>)
        ensures
            crate::font::strings_view(res@) == listed_upto(prefix@, 4),
    {
        let mut all: Vec<&str> = Vec::new();
        all.push("icons/menu.svg");
        all.push("icons/panel-left.svg");
        all.push("icons/panel-left-open.svg");
        all.push("zenvi-icon.svg");
        proof {
            assert(all@.len() == 4);
            assert(forall|j: int| 0 <= j < 4 ==> #[trigger] all@[j]@ == asset_paths()[j].0);
        }
        let mut out: Vec<String> = Vec::new();
        let mut i: usize = 0;
        while i < all.len()
            invariant
                all@.len() == 4,
                i <= 4,
                forall|j: int| 0 <= j < 4 ==> #[trigger] all@[j]@ == asset_paths()[j].0,
                crate::font::strings_view(out@) == listed_upto(prefix@, i as int),
            decreases 4 - i,
        {
            let cs = crate::text::chars_of(all[i]);
            if crate::window::chars_start_with(&cs, prefix) {
                let ghost before = crate::font::strings_view(out@);
                out.push(String::from_str(all[i]));
                proof {
                    assert(crate::font::strings_view(out@) =~= before.push(all@[i as int]@));
                }
            }
            i = i + 1;
        }
        out
    }
}

} // verus!
