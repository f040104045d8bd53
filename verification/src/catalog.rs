//! The product catalog: where products are filed, how a listing is cut into
//! pages, and which products are accepted.
//!
//! The catalog keeps products under paths made of a category, an optional
//! subcategory and an optional product type. Reading and writing the
//! catalog is the caller's work; this module decides what is read and
//! written.

use vstd::prelude::*;
use vstd::string::*;
use crate::integrity::RawHash;
use crate::text::{contains_text, occurs_in};

verus! {

/// The relations under which the catalog files its edges.
#[derive(Clone, Copy, Debug, PartialEq, Eq, Structural)]
pub enum LinkTypes {
    ProductsByCategory,
    ProductTypeToProducts,
    CategoryToSubcategory,
    AllProducts,
    Favorite,
}

/// How many products a page holds when the caller does not say.
pub fn default_limit() -> (limit: usize)
    ensures
        limit == 20,
{
    20
}

/// Which products a caller asks for.
#[derive(Debug)]
pub struct GetProductsParams {
    pub category: String,
    pub subcategory: Option<String>,
    pub product_type: Option<String>,
    /// How many products to pass over.
    pub offset: usize,
    /// How many products to give at most.
    pub limit: usize,
}

/// The mathematical value of an optional text.
pub open spec fn text_view(text: Option<String>) -> Option<Seq<char>> {
    match text {
        Some(text) => Some(text@),
        None => None,
    }
}

/// The path of a category's own root.
pub open spec fn category_path(category: Seq<char>) -> Seq<char> {
    "categories/"@ + category
}

/// The path under which all products of a category are filed.
pub open spec fn category_products_path(category: Seq<char>) -> Seq<char> {
    category_path(category) + "/products"@
}

/// The path of a subcategory's own root.
pub open spec fn subcategory_path(category: Seq<char>, subcategory: Seq<char>) -> Seq<char> {
    category_path(category) + "/subcategories/"@ + subcategory
}

/// The path under which the products of a subcategory are filed.
pub open spec fn subcategory_products_path(category: Seq<char>, subcategory: Seq<char>) -> Seq<char> {
    subcategory_path(category, subcategory) + "/products"@
}

/// The path under which the products of one type within a subcategory are filed.
pub open spec fn type_products_path(category: Seq<char>, subcategory: Seq<char>, product_type: Seq<char>) -> Seq<char> {
    subcategory_path(category, subcategory) + "/types/"@ + product_type + "/products"@
}

fn category_root(category: &str) -> (path: String)
    ensures
        path@ == category_path(category@),
{
    String::from_str("categories/").concat(category)
}

fn category_products(category: &str) -> (path: String)
    ensures
        path@ == category_products_path(category@),
{
    category_root(category).concat("/products")
}

fn subcategory_root(category: &str, subcategory: &str) -> (path: String)
    ensures
        path@ == subcategory_path(category@, subcategory@),
{
    category_root(category).concat("/subcategories/").concat(subcategory)
}

fn subcategory_products(category: &str, subcategory: &str) -> (path: String)
    ensures
        path@ == subcategory_products_path(category@, subcategory@),
{
    subcategory_root(category, subcategory).concat("/products")
}

fn type_products(category: &str, subcategory: &str, product_type: &str) -> (path: String)
    ensures
        path@ == type_products_path(category@, subcategory@, product_type@),
{
    subcategory_root(category, subcategory).concat("/types/").concat(product_type).concat(
        "/products",
    )
}

/// A place in the catalog: a path and the relation under which products are
/// filed there.
#[derive(Debug)]
pub struct ProductIndex {
    pub path: String,
    pub link_type: LinkTypes,
}

/// The mathematical value of a [`ProductIndex`].
pub struct ProductIndexView {
    pub path: Seq<char>,
    pub link_type: LinkTypes,
}

impl View for ProductIndex {
    type V = ProductIndexView;

    open spec fn view(&self) -> ProductIndexView {
        ProductIndexView { path: self.path@, link_type: self.link_type }
    }
}

impl DeepView for ProductIndex {
    type V = ProductIndexView;

    open spec fn deep_view(&self) -> ProductIndexView {
        self@
    }
}

/// The place that a query reads: the products of the type when subcategory
/// and type are both given, those of the subcategory when only it is given,
/// and else those of the category. A type without a subcategory is not looked at.
pub open spec fn index_for(category: Seq<char>, subcategory: Option<Seq<char>>, product_type: Option<Seq<char>>) -> ProductIndexView {
    match (subcategory, product_type) {
        (Some(subcategory), Some(product_type)) => ProductIndexView {
            path: type_products_path(category, subcategory, product_type),
            link_type: LinkTypes::ProductTypeToProducts,
        },
        (Some(subcategory), None) => ProductIndexView {
            path: subcategory_products_path(category, subcategory),
            link_type: LinkTypes::ProductsByCategory,
        },
        _ => ProductIndexView {
            path: category_products_path(category),
            link_type: LinkTypes::ProductsByCategory,
        },
    }
}

/// The place in the catalog that a query by category reads.
pub fn products_index(params: &GetProductsParams) -> (index: ProductIndex)
    ensures
        index@ == index_for(
            params.category@,
            text_view(params.subcategory),
            text_view(params.product_type),
        ),
{
    let category = params.category.as_str();
    match (&params.subcategory, &params.product_type) {
        (Some(subcategory), Some(product_type)) => ProductIndex {
            path: type_products(category, subcategory.as_str(), product_type.as_str()),
            link_type: LinkTypes::ProductTypeToProducts,
        },
        (Some(subcategory), None) => ProductIndex {
            path: subcategory_products(category, subcategory.as_str()),
            link_type: LinkTypes::ProductsByCategory,
        },
        _ => ProductIndex {
            path: category_products(category),
            link_type: LinkTypes::ProductsByCategory,
        },
    }
}

/// The place that a query for all products of a category reads, whatever
/// subcategory and type it names.
pub fn category_index(params: &GetProductsParams) -> (index: ProductIndex)
    ensures
        index@ == index_for(params.category@, None, None),
{
    ProductIndex {
        path: category_products(params.category.as_str()),
        link_type: LinkTypes::ProductsByCategory,
    }
}

/// The places under which a new product is filed, in the order of filing:
/// its category; then its subcategory, if it has one; then its type within
/// the subcategory, if it has both.
pub open spec fn indexes_for(category: Seq<char>, subcategory: Option<Seq<char>>, product_type: Option<Seq<char>>) -> Seq<ProductIndexView> {
    let first = seq![index_for(category, None, None)];
    match subcategory {
        None => first,
        Some(subcategory) => {
            let second = first.push(index_for(category, Some(subcategory), None));
            match product_type {
                None => second,
                Some(product_type) => second.push(
                    index_for(category, Some(subcategory), Some(product_type)),
                ),
            }
        },
    }
}

/// The places under which a new product is filed, in the order of filing.
pub fn product_indexes(main_category: &str, subcategory: Option<&str>, product_type: Option<&str>) -> (out: Vec<ProductIndex>)
    ensures
        out.deep_view() == indexes_for(
            main_category@,
            match subcategory {
                Some(s) => Some(s@),
                None => None,
            },
            match product_type {
                Some(t) => Some(t@),
                None => None,
            },
        ),
{
    let mut out: Vec<ProductIndex> = Vec::new();
    out.push(
        ProductIndex {
            path: category_products(main_category),
            link_type: LinkTypes::ProductsByCategory,
        },
    );
    if let Some(subcategory) = subcategory {
        out.push(
            ProductIndex {
                path: subcategory_products(main_category, subcategory),
                link_type: LinkTypes::ProductsByCategory,
            },
        );
        if let Some(product_type) = product_type {
            out.push(
                ProductIndex {
                    path: type_products(main_category, subcategory, product_type),
                    link_type: LinkTypes::ProductTypeToProducts,
                },
            );
        }
    }
    assert(out.deep_view() =~= indexes_for(
        main_category@,
        match subcategory {
            Some(s) => Some(s@),
            None => None,
        },
        match product_type {
            Some(t) => Some(t@),
            None => None,
        },
    ));
    out
}

/// The part of a listing that one page shows.
#[derive(Clone, Copy, Debug, PartialEq, Eq, Structural)]
pub struct PageBounds {
    /// Position of the first product shown.
    pub start: usize,
    /// Position after the last product shown.
    pub end: usize,
    /// Whether products follow after this page.
    pub has_more: bool,
}

/// The smaller of two numbers.
pub open spec fn smaller(a: int, b: int) -> int {
    if a <= b {
        a
    } else {
        b
    }
}

/// The page of a listing of `total` products that passes over `offset`
/// products and shows at most `limit`: it ends where the listing ends or
/// where the limit is reached, whichever comes first, and starts no later
/// than it ends.
pub open spec fn page_of(total: int, offset: int, limit: int) -> (int, int, bool) {
    let end = smaller(offset + limit, total);
    (smaller(offset, total), end, end < total)
}

/// Cuts one page out of a listing of `total` products.
pub fn page_bounds(total: usize, offset: usize, limit: usize) -> (page: PageBounds)
    ensures
        (page.start as int, page.end as int, page.has_more) == page_of(
            total as int,
            offset as int,
            limit as int,
        ),
        page.start <= page.end <= total,
        page.end - page.start <= limit,
{
    let start = if offset <= total {
        offset
    } else {
        total
    };
    let end = if offset <= total && limit <= total - offset {
        offset + limit
    } else {
        total
    };
    PageBounds { start, end, has_more: end < total }
}

/// One category to set up, with its subcategories.
#[derive(Debug)]
pub struct CategorySetup {
    pub main_category: String,
    pub subcategories: Vec<SubcategorySetup>,
}

/// One subcategory to set up, with the product types that it holds.
#[derive(Debug)]
pub struct SubcategorySetup {
    pub name: String,
    pub product_types: Vec<String>,
}

/// The mathematical value of a [`SubcategorySetup`].
pub struct SubcategorySetupView {
    pub name: Seq<char>,
    pub product_types: Seq<Seq<char>>,
}

/// The mathematical value of a [`CategorySetup`].
pub struct CategorySetupView {
    pub main_category: Seq<char>,
    pub subcategories: Seq<SubcategorySetupView>,
}

impl DeepView for SubcategorySetup {
    type V = SubcategorySetupView;

    open spec fn deep_view(&self) -> SubcategorySetupView {
        SubcategorySetupView {
            name: self.name@,
            product_types: self.product_types.deep_view(),
        }
    }
}

impl DeepView for CategorySetup {
    type V = CategorySetupView;

    open spec fn deep_view(&self) -> CategorySetupView {
        CategorySetupView {
            main_category: self.main_category@,
            subcategories: self.subcategories.deep_view(),
        }
    }
}

/// One step of setting up the catalog's structure.
#[derive(Debug)]
pub enum SetupStep {
    /// Make sure that the root for `path` exists, filed under `link_type`.
    Ensure { path: String, link_type: LinkTypes },
    /// File the root for `to` under the root for `from`.
    Link { from: String, to: String, link_type: LinkTypes },
}

/// The mathematical value of a [`SetupStep`].
pub enum SetupStepView {
    Ensure { path: Seq<char>, link_type: LinkTypes },
    Link { from: Seq<char>, to: Seq<char>, link_type: LinkTypes },
}

impl DeepView for SetupStep {
    type V = SetupStepView;

    open spec fn deep_view(&self) -> SetupStepView {
        match self {
            SetupStep::Ensure { path, link_type } => SetupStepView::Ensure {
                path: path@,
                link_type: *link_type,
            },
            SetupStep::Link { from, to, link_type } => SetupStepView::Link {
                from: from@,
                to: to@,
                link_type: *link_type,
            },
        }
    }
}

/// The steps that set up one product type: its root, and the edge that
/// files it under its subcategory.
pub open spec fn type_steps(category: Seq<char>, subcategory: Seq<char>, product_type: Seq<char>) -> Seq<SetupStepView> {
    seq![
        SetupStepView::Ensure {
            path: type_products_path(category, subcategory, product_type),
            link_type: LinkTypes::ProductTypeToProducts,
        },
        SetupStepView::Link {
            from: subcategory_path(category, subcategory),
            to: type_products_path(category, subcategory, product_type),
            link_type: LinkTypes::ProductTypeToProducts,
        },
    ]
}

/// The steps that set up the given product types, one type after the other.
pub open spec fn types_steps(category: Seq<char>, subcategory: Seq<char>, product_types: Seq<Seq<char>>) -> Seq<SetupStepView>
    decreases product_types.len(),
{
    if product_types.len() == 0 {
        Seq::empty()
    } else {
        types_steps(category, subcategory, product_types.drop_last()) + type_steps(
            category,
            subcategory,
            product_types.last(),
        )
    }
}

/// The steps that set up one subcategory: its own root, the root for its
/// products, the edge that files it under its category, and then its types.
pub open spec fn subcategory_steps(category: Seq<char>, subcategory: SubcategorySetupView) -> Seq<SetupStepView> {
    seq![
        SetupStepView::Ensure {
            path: subcategory_path(category, subcategory.name),
            link_type: LinkTypes::CategoryToSubcategory,
        },
        SetupStepView::Ensure {
            path: subcategory_products_path(category, subcategory.name),
            link_type: LinkTypes::ProductsByCategory,
        },
        SetupStepView::Link {
            from: category_path(category),
            to: subcategory_path(category, subcategory.name),
            link_type: LinkTypes::CategoryToSubcategory,
        },
    ] + types_steps(category, subcategory.name, subcategory.product_types)
}

/// The steps that set up the given subcategories, one after the other.
pub open spec fn subcategories_steps(category: Seq<char>, subcategories: Seq<SubcategorySetupView>) -> Seq<SetupStepView>
    decreases subcategories.len(),
{
    if subcategories.len() == 0 {
        Seq::empty()
    } else {
        subcategories_steps(category, subcategories.drop_last()) + subcategory_steps(
            category,
            subcategories.last(),
        )
    }
}

/// The steps that set up one category: its own root, the root for its
/// products, and then its subcategories.
pub open spec fn category_steps(category: CategorySetupView) -> Seq<SetupStepView> {
    seq![
        SetupStepView::Ensure {
            path: category_path(category.main_category),
            link_type: LinkTypes::ProductsByCategory,
        },
        SetupStepView::Ensure {
            path: category_products_path(category.main_category),
            link_type: LinkTypes::ProductsByCategory,
        },
    ] + subcategories_steps(category.main_category, category.subcategories)
}

/// The steps that set up the given categories, one after the other.
pub open spec fn structure_steps(categories: Seq<CategorySetupView>) -> Seq<SetupStepView>
    decreases categories.len(),
{
    if categories.len() == 0 {
        Seq::empty()
    } else {
        structure_steps(categories.drop_last()) + category_steps(categories.last())
    }
}

fn push_types(out: &mut Vec<SetupStep>, category: &str, subcategory: &str, product_types: &Vec<String>)
    ensures
        final(out).deep_view() == old(out).deep_view() + types_steps(
            category@,
            subcategory@,
            product_types.deep_view(),
        ),
{
    let ghost start = out.deep_view();
    let ghost all = product_types.deep_view();
    let mut i: usize = 0;
    assert(all.take(0) =~= Seq::<Seq<char>>::empty());
    assert(out.deep_view() =~= start + Seq::<SetupStepView>::empty());
    while i < product_types.len()
        invariant
            i <= product_types.len(),
            all == product_types.deep_view(),
            out.deep_view() == start + types_steps(category@, subcategory@, all.take(i as int)),
        decreases product_types.len() - i,
    {
        let ghost before = out.deep_view();
        let product_type = product_types[i].as_str();
        assert(all.take(i + 1).drop_last() =~= all.take(i as int));
        assert(all.take(i + 1).last() == product_type@);
        out.push(
            SetupStep::Ensure {
                path: type_products(category, subcategory, product_type),
                link_type: LinkTypes::ProductTypeToProducts,
            },
        );
        out.push(
            SetupStep::Link {
                from: subcategory_root(category, subcategory),
                to: type_products(category, subcategory, product_type),
                link_type: LinkTypes::ProductTypeToProducts,
            },
        );
        assert(out.deep_view() =~= before + type_steps(category@, subcategory@, product_type@));
        i += 1;
    }
    assert(all.take(i as int) =~= all);
}

fn push_subcategories(out: &mut Vec<SetupStep>, category: &str, subcategories: &Vec<SubcategorySetup>)
    ensures
        final(out).deep_view() == old(out).deep_view() + subcategories_steps(
            category@,
            subcategories.deep_view(),
        ),
{
    let ghost start = out.deep_view();
    let ghost all = subcategories.deep_view();
    let mut i: usize = 0;
    assert(all.take(0) =~= Seq::<SubcategorySetupView>::empty());
    assert(out.deep_view() =~= start + Seq::<SetupStepView>::empty());
    while i < subcategories.len()
        invariant
            i <= subcategories.len(),
            all == subcategories.deep_view(),
            out.deep_view() == start + subcategories_steps(category@, all.take(i as int)),
        decreases subcategories.len() - i,
    {
        let ghost before = out.deep_view();
        let subcategory = &subcategories[i];
        let name = subcategory.name.as_str();
        assert(all.take(i + 1).drop_last() =~= all.take(i as int));
        assert(all.take(i + 1).last() == subcategory.deep_view());
        out.push(
            SetupStep::Ensure {
                path: subcategory_root(category, name),
                link_type: LinkTypes::CategoryToSubcategory,
            },
        );
        out.push(
            SetupStep::Ensure {
                path: subcategory_products(category, name),
                link_type: LinkTypes::ProductsByCategory,
            },
        );
        out.push(
            SetupStep::Link {
                from: category_root(category),
                to: subcategory_root(category, name),
                link_type: LinkTypes::CategoryToSubcategory,
            },
        );
        let ghost headed = out.deep_view();
        push_types(out, category, name, &subcategory.product_types);
        assert(out.deep_view() =~= before + subcategory_steps(category@, subcategory.deep_view())) by {
            assert(headed =~= before + seq![
                SetupStepView::Ensure {
                    path: subcategory_path(category@, name@),
                    link_type: LinkTypes::CategoryToSubcategory,
                },
                SetupStepView::Ensure {
                    path: subcategory_products_path(category@, name@),
                    link_type: LinkTypes::ProductsByCategory,
                },
                SetupStepView::Link {
                    from: category_path(category@),
                    to: subcategory_path(category@, name@),
                    link_type: LinkTypes::CategoryToSubcategory,
                },
            ]);
        }
        i += 1;
    }
    assert(all.take(i as int) =~= all);
}

/// The steps that set up the catalog's structure for the given categories,
/// in the order in which they are to be carried out.
///
/// For each category: its own root and the root for its products. For each
/// of its subcategories: the subcategory's root, the root for its products,
/// and the edge from the category to the subcategory. For each product type
/// of a subcategory: the root for the type's products and the edge from the
/// subcategory to it.
pub fn create_category_structure(categories: &Vec<CategorySetup>) -> (out: Vec<SetupStep>)
    ensures
        out.deep_view() == structure_steps(categories.deep_view()),
{
    let mut out: Vec<SetupStep> = Vec::new();
    let ghost all = categories.deep_view();
    let mut i: usize = 0;
    assert(all.take(0) =~= Seq::<CategorySetupView>::empty());
    assert(out.deep_view() =~= Seq::<SetupStepView>::empty());
    while i < categories.len()
        invariant
            i <= categories.len(),
            all == categories.deep_view(),
            out.deep_view() == structure_steps(all.take(i as int)),
        decreases categories.len() - i,
    {
        let ghost before = out.deep_view();
        let category = &categories[i];
        let name = category.main_category.as_str();
        assert(all.take(i + 1).drop_last() =~= all.take(i as int));
        assert(all.take(i + 1).last() == category.deep_view());
        out.push(
            SetupStep::Ensure {
                path: category_root(name),
                link_type: LinkTypes::ProductsByCategory,
            },
        );
        out.push(
            SetupStep::Ensure {
                path: category_products(name),
                link_type: LinkTypes::ProductsByCategory,
            },
        );
        let ghost headed = out.deep_view();
        push_subcategories(&mut out, name, &category.subcategories);
        assert(out.deep_view() =~= before + category_steps(category.deep_view())) by {
            assert(headed =~= before + seq![
                SetupStepView::Ensure {
                    path: category_path(name@),
                    link_type: LinkTypes::ProductsByCategory,
                },
                SetupStepView::Ensure {
                    path: category_products_path(name@),
                    link_type: LinkTypes::ProductsByCategory,
                },
            ]);
        }
        i += 1;
    }
    assert(all.take(i as int) =~= all);
    out
}

/// An edge of the list of favorites, as far as removing a favorite looks at it.
#[derive(Debug)]
pub struct FavoriteLink {
    /// The address of the edge itself.
    pub create_link_hash: RawHash,
    /// The product that the edge leads to.
    pub target: RawHash,
}

/// The mathematical value of a [`FavoriteLink`].
pub struct FavoriteLinkView {
    pub create_link_hash: Seq<u8>,
    pub target: Seq<u8>,
}

impl DeepView for FavoriteLink {
    type V = FavoriteLinkView;

    open spec fn deep_view(&self) -> FavoriteLinkView {
        FavoriteLinkView { create_link_hash: self.create_link_hash@, target: self.target@ }
    }
}

/// The addresses of the edges among `links` that lead to `product`, in the
/// order of the edges.
pub open spec fn edges_to(links: Seq<FavoriteLinkView>, product: Seq<u8>) -> Seq<Seq<u8>>
    decreases links.len(),
{
    if links.len() == 0 {
        Seq::empty()
    } else {
        let earlier = edges_to(links.drop_last(), product);
        if links.last().target == product {
            earlier.push(links.last().create_link_hash)
        } else {
            earlier
        }
    }
}

/// Which edges of the list of favorites have to go for `product_hash` to be
/// no favorite any more: every edge that leads to the product, and no other.
pub fn remove_from_favorites(links: &Vec<FavoriteLink>, product_hash: &RawHash) -> (out: Vec<RawHash>)
    ensures
        out.deep_view() == edges_to(links.deep_view(), product_hash@),
{
    let mut out: Vec<RawHash> = Vec::new();
    let ghost all = links.deep_view();
    let mut i: usize = 0;
    assert(all.take(0) =~= Seq::<FavoriteLinkView>::empty());
    assert(out.deep_view() =~= Seq::<Seq<u8>>::empty());
    while i < links.len()
        invariant
            i <= links.len(),
            all == links.deep_view(),
            out.deep_view() == edges_to(all.take(i as int), product_hash@),
        decreases links.len() - i,
    {
        let ghost before = out.deep_view();
        assert(all.take(i + 1).drop_last() =~= all.take(i as int));
        assert(all.take(i + 1).last() == links[i as int].deep_view());
        if links[i].target.same_as(product_hash) {
            out.push(links[i].create_link_hash.clone());
            assert(out.deep_view() =~= before.push(links[i as int].create_link_hash@));
        }
        i += 1;
    }
    assert(all.take(i as int) =~= all);
    out
}

/// What a check of a catalog entry comes to.
#[derive(Debug)]
pub enum ValidateCallbackResult {
    Valid,
    /// Refused, with the reason.
    Invalid(String),
}

/// The mathematical value of a [`ValidateCallbackResult`].
pub enum ValidationView {
    Valid,
    Invalid(Seq<char>),
}

impl View for ValidateCallbackResult {
    type V = ValidationView;

    open spec fn view(&self) -> ValidationView {
        match self {
            ValidateCallbackResult::Valid => ValidationView::Valid,
            ValidateCallbackResult::Invalid(reason) => ValidationView::Invalid(reason@),
        }
    }
}

/// Whether a new product is accepted: it needs a name, its price must not
/// be negative, and its image, if it has one, must come from `kroger.com`.
/// The first of these that fails gives the reason.
pub open spec fn product_validity(name: Seq<char>, price_is_negative: bool, image_url: Option<Seq<char>>) -> ValidationView {
    if name.len() == 0 {
        ValidationView::Invalid("Product name cannot be empty"@)
    } else if price_is_negative {
        ValidationView::Invalid("Price cannot be negative"@)
    } else if image_url matches Some(url) && !occurs_in(url, "kroger.com"@) {
        ValidationView::Invalid("Invalid image URL"@)
    } else {
        ValidationView::Valid
    }
}

/// Checks a new product. The caller says whether the price is below zero.
pub fn validate_create_product(name: &str, price_is_negative: bool, image_url: Option<&str>) -> (out: ValidateCallbackResult)
    ensures
        out@ == product_validity(
            name@,
            price_is_negative,
            match image_url {
                Some(url) => Some(url@),
                None => None,
            },
        ),
{
    if name.is_empty() {
        return ValidateCallbackResult::Invalid(String::from_str("Product name cannot be empty"));
    }
    if price_is_negative {
        return ValidateCallbackResult::Invalid(String::from_str("Price cannot be negative"));
    }
    if let Some(url) = image_url {
        if !contains_text(url, "kroger.com") {
            return ValidateCallbackResult::Invalid(String::from_str("Invalid image URL"));
        }
    }
    ValidateCallbackResult::Valid
}

/// Products are never changed: every update is refused.
pub fn validate_update_product() -> (out: ValidateCallbackResult)
    ensures
        out@ == ValidationView::Invalid("Products cannot be updated"@),
{
    ValidateCallbackResult::Invalid(String::from_str("Products cannot be updated"))
}

/// Products are never removed: every deletion is refused.
pub fn validate_delete_product() -> (out: ValidateCallbackResult)
    ensures
        out@ == ValidationView::Invalid("Products cannot be deleted"@),
{
    ValidateCallbackResult::Invalid(String::from_str("Products cannot be deleted"))
}

/// Every edge that files a product under a category is accepted.
pub fn validate_create_link_products_by_category() -> (out: ValidateCallbackResult)
    ensures
        out@ == ValidationView::Valid,
{
    ValidateCallbackResult::Valid
}

/// Every removal of an edge that files a product under a category is accepted.
pub fn validate_delete_link_products_by_category() -> (out: ValidateCallbackResult)
    ensures
        out@ == ValidationView::Valid,
{
    ValidateCallbackResult::Valid
}

} // verus!
