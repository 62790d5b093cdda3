//! Categories: named tags for listings.
//!
//! A category has a slug and a title, both unique across all categories at
//! creation time.  Categories are immutable once created and never removed;
//! their identifiers are dense and monotonically increasing.
use vstd::prelude::*;

verus! {

/// Versioned wrapper of the durable category record.
pub enum VCategory {
    Current(Category),
}

/// A category record.
pub struct Category {
    pub slug: String,
    pub title: String,
}

/// The JSON shape of a category, as read queries return it.
pub struct CategoryJSON {
    pub slug: String,
    pub title: String,
}

impl VCategory {
    /// The current record inside the versioned wrapper.
    pub open spec fn spec_cat(self) -> Category {
        match self {
            VCategory::Current(c) => c,
        }
    }
}

/// Two category records with the same text.
pub open spec fn cat_eqv(a: Category, b: Category) -> bool {
    &&& b.slug@ == a.slug@
    &&& b.title@ == a.title@
}

impl Clone for Category {
    fn clone(&self) -> (res: Self)
        ensures
            cat_eqv(*self, res),
    {
        Category { slug: self.slug.clone(), title: self.title.clone() }
    }
}

impl Clone for VCategory {
    fn clone(&self) -> (res: Self)
        ensures
            cat_eqv(self.spec_cat(), res.spec_cat()),
    {
        match self {
            VCategory::Current(c) => VCategory::Current(c.clone()),
        }
    }
}

impl From<VCategory> for Category {
    fn from(v_category: VCategory) -> (r: Self) {
        match v_category {
            VCategory::Current(category) => category,
        }
    }
}

impl vstd::std_specs::convert::FromSpecImpl<VCategory> for Category {
    open spec fn obeys_from_spec() -> bool {
        true
    }

    open spec fn from_spec(v: VCategory) -> Category {
        v.spec_cat()
    }
}

impl From<VCategory> for CategoryJSON {
    fn from(v_category: VCategory) -> (r: Self) {
        match v_category {
            VCategory::Current(category) => CategoryJSON {
                slug: category.slug,
                title: category.title,
            },
        }
    }
}

impl vstd::std_specs::convert::FromSpecImpl<VCategory> for CategoryJSON {
    open spec fn obeys_from_spec() -> bool {
        true
    }

    open spec fn from_spec(v: VCategory) -> CategoryJSON {
        CategoryJSON { slug: v.spec_cat().slug, title: v.spec_cat().title }
    }
}

} // verus!
