use cart_clones::catalog::{
    category_index, create_category_structure, default_limit, page_bounds, product_indexes,
    products_index, remove_from_favorites, validate_create_link_products_by_category,
    validate_create_product, validate_delete_link_products_by_category, validate_delete_product,
    validate_update_product, CategorySetup, FavoriteLink, GetProductsParams, LinkTypes,
    PageBounds, SetupStep, SubcategorySetup, ValidateCallbackResult,
};
use cart_clones::integrity::RawHash;
use cart_clones::text::contains_text;

fn params(category: &str, subcategory: Option<&str>, product_type: Option<&str>) -> GetProductsParams {
    GetProductsParams {
        category: category.to_string(),
        subcategory: subcategory.map(|s| s.to_string()),
        product_type: product_type.map(|s| s.to_string()),
        offset: 0,
        limit: default_limit(),
    }
}

fn reason(result: ValidateCallbackResult) -> Option<String> {
    match result {
        ValidateCallbackResult::Valid => None,
        ValidateCallbackResult::Invalid(reason) => Some(reason),
    }
}

#[test]
fn default_limit_is_twenty() {
    assert_eq!(default_limit(), 20);
}

#[test]
fn products_index_goes_by_what_the_query_names() {
    let by_type = products_index(&params("Dairy", Some("Milk"), Some("Whole")));
    assert_eq!(by_type.path, "categories/Dairy/subcategories/Milk/types/Whole/products");
    assert_eq!(by_type.link_type, LinkTypes::ProductTypeToProducts);
    let by_subcategory = products_index(&params("Dairy", Some("Milk"), None));
    assert_eq!(by_subcategory.path, "categories/Dairy/subcategories/Milk/products");
    assert_eq!(by_subcategory.link_type, LinkTypes::ProductsByCategory);
    let by_category = products_index(&params("Dairy", None, None));
    assert_eq!(by_category.path, "categories/Dairy/products");
    assert_eq!(by_category.link_type, LinkTypes::ProductsByCategory);
}

#[test]
fn products_index_passes_over_a_type_without_subcategory() {
    let index = products_index(&params("Dairy", None, Some("Whole")));
    assert_eq!(index.path, "categories/Dairy/products");
    assert_eq!(index.link_type, LinkTypes::ProductsByCategory);
}

#[test]
fn category_index_reads_the_whole_category() {
    let index = category_index(&params("Dairy", Some("Milk"), Some("Whole")));
    assert_eq!(index.path, "categories/Dairy/products");
    assert_eq!(index.link_type, LinkTypes::ProductsByCategory);
}

#[test]
fn product_indexes_lists_one_to_three_places() {
    let one = product_indexes("Dairy", None, None);
    assert_eq!(one.len(), 1);
    assert_eq!(one[0].path, "categories/Dairy/products");
    let none_for_type_alone = product_indexes("Dairy", None, Some("Whole"));
    assert_eq!(none_for_type_alone.len(), 1);
    let two = product_indexes("Dairy", Some("Milk"), None);
    assert_eq!(two.len(), 2);
    assert_eq!(two[1].path, "categories/Dairy/subcategories/Milk/products");
    assert_eq!(two[1].link_type, LinkTypes::ProductsByCategory);
    let three = product_indexes("Dairy", Some("Milk"), Some("Whole"));
    assert_eq!(three.len(), 3);
    assert_eq!(three[0].path, "categories/Dairy/products");
    assert_eq!(three[0].link_type, LinkTypes::ProductsByCategory);
    assert_eq!(three[1].path, "categories/Dairy/subcategories/Milk/products");
    assert_eq!(three[2].path, "categories/Dairy/subcategories/Milk/types/Whole/products");
    assert_eq!(three[2].link_type, LinkTypes::ProductTypeToProducts);
}

#[test]
fn page_bounds_cuts_a_page() {
    assert_eq!(page_bounds(50, 0, 20), PageBounds { start: 0, end: 20, has_more: true });
    assert_eq!(page_bounds(50, 20, 20), PageBounds { start: 20, end: 40, has_more: true });
    assert_eq!(page_bounds(50, 40, 20), PageBounds { start: 40, end: 50, has_more: false });
    assert_eq!(page_bounds(50, 30, 20), PageBounds { start: 30, end: 50, has_more: false });
}

#[test]
fn page_bounds_at_the_edges() {
    assert_eq!(page_bounds(0, 0, 20), PageBounds { start: 0, end: 0, has_more: false });
    assert_eq!(page_bounds(5, 5, 20), PageBounds { start: 5, end: 5, has_more: false });
    assert_eq!(page_bounds(5, 9, 20), PageBounds { start: 5, end: 5, has_more: false });
    assert_eq!(page_bounds(5, 0, 0), PageBounds { start: 0, end: 0, has_more: true });
    assert_eq!(page_bounds(5, 2, 0), PageBounds { start: 2, end: 2, has_more: true });
    assert_eq!(
        page_bounds(5, usize::MAX, usize::MAX),
        PageBounds { start: 5, end: 5, has_more: false }
    );
    assert_eq!(page_bounds(5, 1, usize::MAX), PageBounds { start: 1, end: 5, has_more: false });
    assert_eq!(
        page_bounds(usize::MAX, 1, usize::MAX - 1),
        PageBounds { start: 1, end: usize::MAX, has_more: false }
    );
}

#[test]
fn create_category_structure_plans_every_root_and_edge() {
    let categories = vec![
        CategorySetup {
            main_category: "Dairy".to_string(),
            subcategories: vec![
                SubcategorySetup {
                    name: "Milk".to_string(),
                    product_types: vec!["Whole".to_string(), "Skim".to_string()],
                },
                SubcategorySetup { name: "Eggs".to_string(), product_types: vec![] },
            ],
        },
        CategorySetup { main_category: "Bakery".to_string(), subcategories: vec![] },
    ];
    let steps = create_category_structure(&categories);
    let shown: Vec<String> = steps
        .iter()
        .map(|step| match step {
            SetupStep::Ensure { path, link_type } => format!("ensure {} {:?}", path, link_type),
            SetupStep::Link { from, to, link_type } => {
                format!("link {} -> {} {:?}", from, to, link_type)
            }
        })
        .collect();
    let expected = vec![
        "ensure categories/Dairy ProductsByCategory",
        "ensure categories/Dairy/products ProductsByCategory",
        "ensure categories/Dairy/subcategories/Milk CategoryToSubcategory",
        "ensure categories/Dairy/subcategories/Milk/products ProductsByCategory",
        "link categories/Dairy -> categories/Dairy/subcategories/Milk CategoryToSubcategory",
        "ensure categories/Dairy/subcategories/Milk/types/Whole/products ProductTypeToProducts",
        "link categories/Dairy/subcategories/Milk -> categories/Dairy/subcategories/Milk/types/Whole/products ProductTypeToProducts",
        "ensure categories/Dairy/subcategories/Milk/types/Skim/products ProductTypeToProducts",
        "link categories/Dairy/subcategories/Milk -> categories/Dairy/subcategories/Milk/types/Skim/products ProductTypeToProducts",
        "ensure categories/Dairy/subcategories/Eggs CategoryToSubcategory",
        "ensure categories/Dairy/subcategories/Eggs/products ProductsByCategory",
        "link categories/Dairy -> categories/Dairy/subcategories/Eggs CategoryToSubcategory",
        "ensure categories/Bakery ProductsByCategory",
        "ensure categories/Bakery/products ProductsByCategory",
    ];
    assert_eq!(shown, expected);
}

#[test]
fn create_category_structure_of_nothing_is_empty() {
    assert!(create_category_structure(&vec![]).is_empty());
}

#[test]
fn remove_from_favorites_picks_every_edge_to_the_product() {
    let product = RawHash::new(vec![1; 39]);
    let other = RawHash::new(vec![2; 39]);
    let links = vec![
        FavoriteLink { create_link_hash: RawHash::new(vec![10; 39]), target: product.clone() },
        FavoriteLink { create_link_hash: RawHash::new(vec![11; 39]), target: other.clone() },
        FavoriteLink { create_link_hash: RawHash::new(vec![12; 39]), target: product.clone() },
    ];
    let gone = remove_from_favorites(&links, &product);
    let raw: Vec<Vec<u8>> = gone.into_iter().map(|h| h.raw).collect();
    assert_eq!(raw, vec![vec![10u8; 39], vec![12u8; 39]]);
    assert!(remove_from_favorites(&links, &RawHash::new(vec![3; 39])).is_empty());
    assert!(remove_from_favorites(&vec![], &product).is_empty());
}

#[test]
fn validate_create_product_accepts_a_good_product() {
    assert_eq!(reason(validate_create_product("Milk", false, None)), None);
    assert_eq!(
        reason(validate_create_product("Milk", false, Some("https://www.kroger.com/p/1.jpg"))),
        None
    );
}

#[test]
fn validate_create_product_gives_the_first_reason() {
    assert_eq!(
        reason(validate_create_product("", true, Some("https://example.com/x.jpg"))),
        Some("Product name cannot be empty".to_string())
    );
    assert_eq!(
        reason(validate_create_product("Milk", true, Some("https://example.com/x.jpg"))),
        Some("Price cannot be negative".to_string())
    );
    assert_eq!(
        reason(validate_create_product("Milk", false, Some("https://example.com/x.jpg"))),
        Some("Invalid image URL".to_string())
    );
    assert_eq!(
        reason(validate_create_product("Milk", false, Some(""))),
        Some("Invalid image URL".to_string())
    );
    assert_eq!(
        reason(validate_create_product("Milk", false, Some("kroger.co"))),
        Some("Invalid image URL".to_string())
    );
}

#[test]
fn products_are_never_updated_or_deleted() {
    assert_eq!(reason(validate_update_product()), Some("Products cannot be updated".to_string()));
    assert_eq!(reason(validate_delete_product()), Some("Products cannot be deleted".to_string()));
}

#[test]
fn catalog_edges_are_always_accepted() {
    assert_eq!(reason(validate_create_link_products_by_category()), None);
    assert_eq!(reason(validate_delete_link_products_by_category()), None);
}

#[test]
fn contains_text_finds_a_part() {
    assert!(contains_text("https://www.kroger.com/x", "kroger.com"));
    assert!(contains_text("kroger.com", "kroger.com"));
    assert!(contains_text("xkroger.com", "kroger.com"));
    assert!(!contains_text("kroger.co", "kroger.com"));
    assert!(!contains_text("", "kroger.com"));
    assert!(contains_text("", ""));
    assert!(contains_text("abc", ""));
    assert!(contains_text("aab", "ab"));
    assert!(!contains_text("aba", "bb"));
    assert!(contains_text("μkroger.comμ", "kroger.com"));
}
