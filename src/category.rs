use vstd::prelude::*;

verus! {

/// The kind of payload, which selects the storage partition ("bucket") it lives in.
#[derive(Clone, Copy, Debug, PartialEq, Eq, Structural)]
pub enum Category {
    RawImage,
    Sidecar,
    Image,
}

impl Category {
    /// The name of the partition that holds payloads of this category.
    pub open spec fn bucket_spec(self) -> Seq<char> {
        match self {
            Category::RawImage => "raw"@,
            Category::Sidecar => "sidecar"@,
            Category::Image => "image"@,
        }
    }

    /// Distinct categories are routed to distinct partitions.
    pub proof fn lemma_bucket_injective(self, other: Category)
        ensures
            self.bucket_spec() == other.bucket_spec() <==> self == other,
    {
        reveal_strlit("raw");
        reveal_strlit("sidecar");
        reveal_strlit("image");
        if self != other {
            assert(self.bucket_spec()[0] != other.bucket_spec()[0]
                || self.bucket_spec().len() != other.bucket_spec().len());
        }
    }

    /// The name of the partition that holds payloads of this category.
    pub fn bucket(&self) -> (r: String)
        ensures
            r@ == self.bucket_spec(),
    {
        match self {
            Category::RawImage => String::from_str("raw"),
            Category::Sidecar => String::from_str("sidecar"),
            Category::Image => String::from_str("image"),
        }
    }
}

} // verus!
