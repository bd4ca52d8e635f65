use dx_story::pagination::{CatalogPage, PageSize};

fn page_size() -> PageSize {
    PageSize::new(15).unwrap_or(PageSize::one())
}

#[test]
fn first_page_bounds_items_and_has_only_a_forward_transition() {
    let page = CatalogPage::first(31, page_size());

    assert_eq!(page.page_number().get(), 1);
    assert_eq!(page.page_count().get(), 3);
    assert_eq!(page.item_range(), 0..15);
    assert_eq!(page.previous(), None);
    assert_eq!(page.next().map(|next| next.page_number().get()), Some(2));
}

#[test]
fn final_page_bounds_items_and_has_only_a_backward_transition() {
    let page = CatalogPage::first(31, page_size())
        .next()
        .and_then(CatalogPage::next)
        .unwrap_or_else(|| CatalogPage::first(31, page_size()));

    assert_eq!(page.page_number().get(), 3);
    assert_eq!(page.item_range(), 30..31);
    assert_eq!(
        page.previous().map(|previous| previous.page_number().get()),
        Some(2)
    );
    assert_eq!(page.next(), None);
}

#[test]
fn empty_catalog_keeps_one_empty_page() {
    let page = CatalogPage::first(0, page_size());

    assert_eq!(page.page_count().get(), 1);
    assert_eq!(page.item_range(), 0..0);
    assert_eq!(page.previous(), None);
    assert_eq!(page.next(), None);
}

#[test]
fn page_sizes_are_positive() {
    assert!(PageSize::new(0).is_none());
    assert_eq!(PageSize::new(7).map(PageSize::get), Some(7));
    assert_eq!(PageSize::one().get(), 1);
}

#[test]
fn next_then_previous_returns_to_the_same_page() {
    let first = CatalogPage::first(40, PageSize::new(10).unwrap());
    let second = first.next().unwrap();
    assert_eq!(second.previous(), Some(first));
    let third = second.next().unwrap();
    assert_eq!(third.previous().and_then(CatalogPage::next), Some(third));
}

#[test]
fn pages_tile_the_items_without_gaps() {
    let mut page = CatalogPage::first(23, PageSize::new(5).unwrap());
    let mut covered = Vec::new();
    loop {
        covered.extend(page.item_range());
        match page.next() {
            Some(next) => page = next,
            None => break,
        }
    }
    assert_eq!(covered, (0..23).collect::<Vec<_>>());
    assert_eq!(page.page_number().get(), 5);
    assert_eq!(page.item_range(), 20..23);
}

#[test]
fn a_single_large_page_holds_everything() {
    let page = CatalogPage::first(3, PageSize::new(usize::MAX).unwrap());
    assert_eq!(page.page_count().get(), 1);
    assert_eq!(page.item_range(), 0..3);
}
