use xbattory::page::Page;

#[test]
fn icon_bucket_boundaries() {
    let p = Page::Main;
    assert_eq!(p.get_bat_status_icon(0), "0");
    assert_eq!(p.get_bat_status_icon(5), "0");
    assert_eq!(p.get_bat_status_icon(6), "10");
    assert_eq!(p.get_bat_status_icon(10), "10");
    assert_eq!(p.get_bat_status_icon(11), "20");
    assert_eq!(p.get_bat_status_icon(20), "20");
    assert_eq!(p.get_bat_status_icon(37), "40");
    assert_eq!(p.get_bat_status_icon(50), "50");
    assert_eq!(p.get_bat_status_icon(51), "60");
    assert_eq!(p.get_bat_status_icon(80), "80");
    assert_eq!(p.get_bat_status_icon(81), "90");
    assert_eq!(p.get_bat_status_icon(90), "90");
    assert_eq!(p.get_bat_status_icon(91), "100");
    assert_eq!(p.get_bat_status_icon(100), "100");
    assert_eq!(p.get_bat_status_icon(255), "100");
}

#[test]
fn default_page_is_main() {
    assert_eq!(Page::default(), Page::Main);
}

#[test]
fn selecting_settings_remembers_previous() {
    let (next, prev) = Page::Main.select(None, Page::Settings);
    assert_eq!(next, Page::Settings);
    assert_eq!(prev, Some(Page::Main));
}

#[test]
fn selecting_about_remembers_previous() {
    let (next, prev) = Page::Details.select(Some(Page::Main), Page::About);
    assert_eq!(next, Page::About);
    assert_eq!(prev, Some(Page::Details));
}

#[test]
fn selecting_other_pages_keeps_previous() {
    let (next, prev) = Page::Settings.select(Some(Page::Main), Page::Details);
    assert_eq!(next, Page::Details);
    assert_eq!(prev, Some(Page::Main));

    let (next, prev) = Page::Main.select(None, Page::Statistics);
    assert_eq!(next, Page::Statistics);
    assert_eq!(prev, None);
}
