use vstd::prelude::*;
use crate::error::MeshError;

verus! {

/// One named field of a vertex record: `size` scalars that start `offset`
/// scalars after the beginning of the record.
#[derive(Debug, PartialEq)]
pub struct Attribute {
    pub name: String,
    pub offset: usize,
    pub size: usize,
}

/// The declaration of an attribute: its name and its number of components.
pub struct AttributeSpec(pub String, pub usize);

/// The format of one vertex record: attributes packed in order, without
/// padding, and the record's total width in scalars.
#[derive(Debug, PartialEq)]
pub struct Layout {
    pub attributes: Vec<Attribute>,
    pub stride: usize,
}

/// Sum of the component counts of the first `n` declarations.
pub open spec fn sizes_sum(specs: Seq<AttributeSpec>, n: int) -> int
    decreases n,
{
    if n <= 0 {
        0
    } else {
        sizes_sum(specs, n - 1) + specs[n - 1].1
    }
}

/// Whether some declaration has no components.
pub open spec fn has_empty_attribute(specs: Seq<AttributeSpec>) -> bool {
    exists|i: int| 0 <= i < specs.len() && (#[trigger] specs[i]).1 == 0
}

/// The first attribute at or after position `from` whose name is `name`.
pub open spec fn first_named(attributes: Seq<Attribute>, name: Seq<char>, from: int) -> Option<
    Attribute,
>
    decreases attributes.len() - from,
{
    if from < 0 || from >= attributes.len() {
        None
    } else if attributes[from].name@ == name {
        Some(attributes[from])
    } else {
        first_named(attributes, name, from + 1)
    }
}

/// The running total never decreases along the declarations.
pub proof fn lemma_sizes_sum_monotonic(specs: Seq<AttributeSpec>, m: int, n: int)
    requires
        0 <= m <= n,
    ensures
        0 <= sizes_sum(specs, m) <= sizes_sum(specs, n),
    decreases n,
{
    if m < n {
        lemma_sizes_sum_monotonic(specs, m, n - 1);
    } else if n > 0 {
        lemma_sizes_sum_monotonic(specs, m - 1, n - 1);
    }
}

/// A layout that packs declarations of which none is empty is well formed.
pub proof fn lemma_packed_is_well_formed(layout: Layout, specs: Seq<AttributeSpec>)
    requires
        layout.packs(specs),
        !has_empty_attribute(specs),
    ensures
        layout.well_formed(),
{
    lemma_widths_are_sizes(layout, specs, specs.len() as int);
    assert forall|i: int| 0 <= i < layout.attributes@.len() implies {
        &&& (#[trigger] layout.attributes@[i]).size > 0
        &&& layout.attributes@[i].offset == layout.width_before(i)
    } by {
        lemma_widths_are_sizes(layout, specs, i);
        assert(specs[i].1 != 0);
    }
}

proof fn lemma_widths_are_sizes(layout: Layout, specs: Seq<AttributeSpec>, n: int)
    requires
        layout.packs(specs),
        0 <= n <= specs.len(),
    ensures
        layout.width_before(n) == sizes_sum(specs, n),
    decreases n,
{
    if n > 0 {
        lemma_widths_are_sizes(layout, specs, n - 1);
    }
}

proof fn lemma_width_before_monotonic(layout: Layout, m: int, n: int)
    requires
        0 <= m <= n,
    ensures
        0 <= layout.width_before(m) <= layout.width_before(n),
    decreases n,
{
    if m < n {
        lemma_width_before_monotonic(layout, m, n - 1);
    } else if n > 0 {
        lemma_width_before_monotonic(layout, m - 1, n - 1);
    }
}

/// In a well-formed layout an attribute ends where the next one begins at
/// the latest, and every attribute ends within the record: no two
/// attributes share a scalar, and none reaches into the next vertex.
pub proof fn lemma_attributes_apart(layout: Layout, i: int, j: int)
    requires
        layout.well_formed(),
        0 <= i < j < layout.attributes@.len(),
    ensures
        layout.attributes@[i].offset + layout.attributes@[i].size <= layout.attributes@[j].offset,
        layout.attributes@[j].offset + layout.attributes@[j].size <= layout.stride,
{
    lemma_width_before_monotonic(layout, i + 1, j);
    lemma_width_before_monotonic(layout, j + 1, layout.attributes@.len() as int);
}

/// A lookup yields the first attribute of that name, and yields none only
/// where no attribute has that name.
pub proof fn lemma_lookup_is_first(layout: Layout, name: Seq<char>)
    ensures
        match layout.attribute(name) {
            Some(a) => exists|i: int|
                {
                    &&& 0 <= i < layout.attributes@.len()
                    &&& #[trigger] layout.attributes@[i] == a
                    &&& a.name@ == name
                    &&& forall|j: int| 0 <= j < i ==> (#[trigger] layout.attributes@[j]).name@ != name
                },
            None => forall|j: int|
                0 <= j < layout.attributes@.len() ==> (#[trigger] layout.attributes@[j]).name@
                    != name,
        },
{
    lemma_first_named(layout.attributes@, name, 0);
}

proof fn lemma_first_named(attributes: Seq<Attribute>, name: Seq<char>, from: int)
    requires
        0 <= from <= attributes.len(),
    ensures
        match first_named(attributes, name, from) {
            Some(a) => exists|i: int|
                {
                    &&& from <= i < attributes.len()
                    &&& #[trigger] attributes[i] == a
                    &&& a.name@ == name
                    &&& forall|j: int| from <= j < i ==> (#[trigger] attributes[j]).name@ != name
                },
            None => forall|j: int|
                from <= j < attributes.len() ==> (#[trigger] attributes[j]).name@ != name,
        },
    decreases attributes.len() - from,
{
    if from < attributes.len() {
        if attributes[from].name@ == name {
            assert(attributes[from] == first_named(attributes, name, from).unwrap());
        } else {
            lemma_first_named(attributes, name, from + 1);
            match first_named(attributes, name, from + 1) {
                Some(a) => {
                    let i = choose|i: int|
                        {
                            &&& from + 1 <= i < attributes.len()
                            &&& #[trigger] attributes[i] == a
                            &&& a.name@ == name
                            &&& forall|j: int|
                                from + 1 <= j < i ==> (#[trigger] attributes[j]).name@ != name
                        };
                    assert(attributes[i] == a);
                },
                None => {},
            }
        }
    }
}

impl Clone for Attribute {
    fn clone(&self) -> (copy: Attribute)
        ensures
            copy == *self,
    {
        Attribute { name: self.name.clone(), offset: self.offset, size: self.size }
    }
}

impl Clone for Layout {
    fn clone(&self) -> (copy: Layout)
        ensures
            copy.stride == self.stride,
            copy.attributes@ == self.attributes@,
    {
        let mut attributes: Vec<Attribute> = Vec::new();
        let mut i: usize = 0;
        while i < self.attributes.len()
            invariant
                i <= self.attributes@.len(),
                attributes@ == self.attributes@.take(i as int),
            decreases self.attributes@.len() - i,
        {
            attributes.push(self.attributes[i].clone());
            assert(attributes@ == self.attributes@.take(i + 1));
            i += 1;
        }
        assert(attributes@ == self.attributes@);
        Layout { attributes, stride: self.stride }
    }
}

impl Layout {
    /// The layout holds exactly the declared attributes, in order, each
    /// placed right behind the one before it, and its stride is their
    /// total width.
    pub open spec fn packs(&self, specs: Seq<AttributeSpec>) -> bool {
        &&& self.attributes@.len() == specs.len()
        &&& self.stride == sizes_sum(specs, specs.len() as int)
        &&& forall|i: int|
            0 <= i < specs.len() ==> {
                &&& (#[trigger] self.attributes@[i]).name@ == specs[i].0@
                &&& self.attributes@[i].offset == sizes_sum(specs, i)
                &&& self.attributes@[i].size == specs[i].1
            }
    }

    /// Total width of the first `n` attributes.
    pub open spec fn width_before(&self, n: int) -> int
        decreases n,
    {
        if n <= 0 {
            0
        } else {
            self.width_before(n - 1) + self.attributes@[n - 1].size
        }
    }

    /// The attributes are non-empty and lie back to back from offset zero,
    /// and the stride is where the last one ends.
    pub open spec fn well_formed(&self) -> bool {
        &&& self.stride == self.width_before(self.attributes@.len() as int)
        &&& forall|i: int|
            0 <= i < self.attributes@.len() ==> {
                &&& (#[trigger] self.attributes@[i]).size > 0
                &&& self.attributes@[i].offset == self.width_before(i)
            }
    }

    /// The attribute that a lookup of `name` yields.
    pub open spec fn attribute(&self, name: Seq<char>) -> Option<Attribute> {
        first_named(self.attributes@, name, 0)
    }

    /// Lays the declared attributes out back to back, in the order given.
    /// A declaration with no components is refused.
    pub fn new(layout: Vec<AttributeSpec>) -> (built: Result<Layout, MeshError>)
        requires
            sizes_sum(layout@, layout@.len() as int) <= usize::MAX,
        ensures
            built is Err <==> has_empty_attribute(layout@),
            match built {
                Ok(l) => l.packs(layout@) && l.well_formed(),
                Err(e) => e == MeshError::InvalidLayout,
            },
    {
        let mut stride: usize = 0;
        let mut attributes: Vec<Attribute> = Vec::new();
        let mut i: usize = 0;
        while i < layout.len()
            invariant
                i <= layout@.len(),
                sizes_sum(layout@, layout@.len() as int) <= usize::MAX,
                stride == sizes_sum(layout@, i as int),
                attributes@.len() == i,
                forall|j: int| 0 <= j < i ==> (#[trigger] layout@[j]).1 != 0,
                forall|j: int|
                    0 <= j < i ==> {
                        &&& (#[trigger] attributes@[j]).name@ == layout@[j].0@
                        &&& attributes@[j].offset == sizes_sum(layout@, j)
                        &&& attributes@[j].size == layout@[j].1
                    },
            decreases layout@.len() - i,
        {
            let size: usize = layout[i].1;
            if size == 0 {
                return Err(MeshError::InvalidLayout);
            }
            proof {
                lemma_sizes_sum_monotonic(layout@, i + 1, layout@.len() as int);
            }
            attributes.push(Attribute { name: layout[i].0.clone(), offset: stride, size });
            stride = stride + size;
            i += 1;
        }
        let built = Layout { attributes, stride };
        proof {
            lemma_packed_is_well_formed(built, layout@);
        }
        Ok(built)
    }

    /// The layout of a vertex that has a position only.
    pub fn position() -> (l: Layout)
        ensures
            l.well_formed(),
            l.stride == 3,
            l.attributes@.len() == 1,
            l.attributes@[0].name@ == "position"@,
            l.attributes@[0].offset == 0,
            l.attributes@[0].size == 3,
    {
        let mut specs: Vec<AttributeSpec> = Vec::new();
        specs.push(AttributeSpec("position".to_owned(), 3));
        proof {
            reveal_with_fuel(sizes_sum, 2);
        }
        match Layout::new(specs) {
            Ok(l) => l,
            Err(_) => vstd::pervasive::unreached(),
        }
    }

    /// The layout of a vertex that has a position and a texture coordinate.
    pub fn position_texcoord() -> (l: Layout)
        ensures
            l.well_formed(),
            l.stride == 5,
            l.attributes@.len() == 2,
            l.attributes@[0].name@ == "position"@,
            l.attributes@[0].offset == 0,
            l.attributes@[0].size == 3,
            l.attributes@[1].name@ == "texcoord"@,
            l.attributes@[1].offset == 3,
            l.attributes@[1].size == 2,
    {
        let mut specs: Vec<AttributeSpec> = Vec::new();
        specs.push(AttributeSpec("position".to_owned(), 3));
        specs.push(AttributeSpec("texcoord".to_owned(), 2));
        proof {
            reveal_with_fuel(sizes_sum, 3);
        }
        match Layout::new(specs) {
            Ok(l) => l,
            Err(_) => vstd::pervasive::unreached(),
        }
    }

    /// The layout of a vertex that has a position, a texture coordinate and
    /// a normal.
    pub fn position_texcoord_normal() -> (l: Layout)
        ensures
            l.well_formed(),
            l.stride == 8,
            l.attributes@.len() == 3,
            l.attributes@[0].name@ == "position"@,
            l.attributes@[0].offset == 0,
            l.attributes@[0].size == 3,
            l.attributes@[1].name@ == "texcoord"@,
            l.attributes@[1].offset == 3,
            l.attributes@[1].size == 2,
            l.attributes@[2].name@ == "normal"@,
            l.attributes@[2].offset == 5,
            l.attributes@[2].size == 3,
    {
        let mut specs: Vec<AttributeSpec> = Vec::new();
        specs.push(AttributeSpec("position".to_owned(), 3));
        specs.push(AttributeSpec("texcoord".to_owned(), 2));
        specs.push(AttributeSpec("normal".to_owned(), 3));
        proof {
            reveal_with_fuel(sizes_sum, 4);
        }
        match Layout::new(specs) {
            Ok(l) => l,
            Err(_) => vstd::pervasive::unreached(),
        }
    }

    /// The first attribute, in declaration order, whose name is `name`.
    pub fn get_attribute(&self, name: &str) -> (found: Option<&Attribute>)
        ensures
            match found {
                Some(a) => self.attribute(name@) == Some(*a),
                None => self.attribute(name@) is None,
            },
    {
        let key = name.to_owned();
        let mut i: usize = 0;
        while i < self.attributes.len()
            invariant
                i <= self.attributes@.len(),
                key@ == name@,
                self.attribute(name@) == first_named(self.attributes@, name@, i as int),
            decreases self.attributes@.len() - i,
        {
            if self.attributes[i].name == key {
                return Some(&self.attributes[i]);
            }
            i += 1;
        }
        None
    }
}

} // verus!
