use metrics_exporter::route::{route, Route};

#[test]
fn get_metrics_is_the_scrape_route() {
    assert_eq!(route(b"GET", b"/metrics"), Route::Metrics);
}

#[test]
fn get_root_is_the_liveness_route() {
    assert_eq!(route(b"GET", b"/"), Route::Liveness);
}

#[test]
fn unknown_paths_and_methods_are_not_found() {
    assert_eq!(route(b"GET", b"/metric"), Route::NotFound);
    assert_eq!(route(b"GET", b"/metrics/"), Route::NotFound);
    assert_eq!(route(b"POST", b"/metrics"), Route::NotFound);
    assert_eq!(route(b"POST", b"/"), Route::NotFound);
    assert_eq!(route(b"get", b"/"), Route::NotFound);
    assert_eq!(route(b"", b""), Route::NotFound);
}
