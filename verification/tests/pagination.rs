use code_nix::paginate::Paginator;

/// Drives a paginator against a stub server whose pages are given up front:
/// `true` for a non-empty page, `false` for an empty one. Returns how many
/// requests went out.
fn drive(pager: &mut Paginator, stub_pages: &[bool]) -> u64 {
    let mut requests: u64 = 0;
    while let Some(page_number) = pager.next_request() {
        let idx = (page_number - 1) as usize;
        let nonempty = idx < stub_pages.len() && stub_pages[idx];
        requests += 1;
        pager.record_page(nonempty);
    }
    requests
}

#[test]
fn pagination_stops_after_the_first_empty_page() {
    // A stub answering 3 non-empty pages and then an empty one: exactly 4
    // requests go out and 3 pages are merged.
    let mut pager = Paginator::new();
    let requests = drive(&mut pager, &[true, true, true, false]);
    assert_eq!(requests, 4);
    assert_eq!(pager.requests_made, 4);
    assert_eq!(pager.pages_merged, 3);
    assert!(pager.done);
}

#[test]
fn an_immediately_empty_server_costs_one_request() {
    let mut pager = Paginator::new();
    let requests = drive(&mut pager, &[false]);
    assert_eq!(requests, 1);
    assert_eq!(pager.pages_merged, 0);
}

#[test]
fn pages_are_requested_in_order() {
    let mut pager = Paginator::new();
    assert_eq!(pager.next_request(), Some(1));
    pager.record_page(true);
    assert_eq!(pager.next_request(), Some(2));
    pager.record_page(true);
    assert_eq!(pager.next_request(), Some(3));
    pager.record_page(false);
    assert_eq!(pager.next_request(), None);
}

#[test]
fn batch_queries_stop_at_the_page_ceiling() {
    // 25 extensions at page size 10 imply at most ceil(25/10) = 3 pages,
    // even when the server keeps answering non-empty pages.
    let mut pager = Paginator::with_page_ceiling(25, 10);
    let requests = drive(&mut pager, &[true, true, true, true, true]);
    assert_eq!(requests, 3);
    assert_eq!(pager.pages_merged, 3);
}

#[test]
fn batch_queries_also_stop_at_an_empty_page() {
    let mut pager = Paginator::with_page_ceiling(100, 10);
    let requests = drive(&mut pager, &[true, false]);
    assert_eq!(requests, 2);
    assert_eq!(pager.pages_merged, 1);
}
