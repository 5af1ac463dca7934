//! The page model of the front end: which page is shown, which page is
//! remembered, and the battery icon chosen for a capacity percentage.

use vstd::prelude::*;

verus! {

/// The pages of the front end.
#[derive(Debug, Clone, Copy, PartialEq, Eq, Structural, Default)]
pub enum Page {
    #[default]
    Main,
    Details,
    Statistics,
    Settings,
    About,
}

/// The icon level shown for a capacity percentage: the percentage rounded up
/// into the buckets 0, 10, 20, ..., 100.
pub open spec fn icon_level(p: u8) -> Seq<char> {
    if p <= 5 {
        "0"@
    } else if p <= 10 {
        "10"@
    } else if p <= 20 {
        "20"@
    } else if p <= 30 {
        "30"@
    } else if p <= 40 {
        "40"@
    } else if p <= 50 {
        "50"@
    } else if p <= 60 {
        "60"@
    } else if p <= 70 {
        "70"@
    } else if p <= 80 {
        "80"@
    } else if p <= 90 {
        "90"@
    } else {
        "100"@
    }
}

impl Page {
    /// The battery status icon name fragment for a capacity percentage.
    pub fn get_bat_status_icon(&self, p: u8) -> (r: &str)
        ensures
            r@ == icon_level(p),
    {
        if p <= 5 {
            "0"
        } else if p <= 10 {
            "10"
        } else if p <= 20 {
            "20"
        } else if p <= 30 {
            "30"
        } else if p <= 40 {
            "40"
        } else if p <= 50 {
            "50"
        } else if p <= 60 {
            "60"
        } else if p <= 70 {
            "70"
        } else if p <= 80 {
            "80"
        } else if p <= 90 {
            "90"
        } else {
            "100"
        }
    }

    /// The page shown after selecting `target`, and the page remembered as
    /// previous: selecting the settings or the about page remembers the page
    /// being left, any other selection keeps `previous` as it was.
    pub fn select(self, previous: Option<Page>, target: Page) -> (r: (Page, Option<Page>))
        ensures
            r.0 == target,
            r.1 == (if target == Page::Settings || target == Page::About {
                Some(self)
            } else {
                previous
            }),
    {
        if target == Page::Settings || target == Page::About {
            (target, Some(self))
        } else {
            (target, previous)
        }
    }
}

} // verus!
