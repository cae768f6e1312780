//! The shapes and their properties: the model between a schema and the documents.

use vstd::prelude::*;

verus! {

/// One typed property of a shape.
#[derive(Debug, PartialEq, Eq)]
pub struct PropertyInfo {
    /// The local name of the predicate.
    pub name: String,
    /// The full identifier found on the constraint.
    pub predicate: String,
    /// A primitive type tag, or the label of the shape referred to.
    pub range: String,
    /// The least number of values, where the constraint gives one.
    pub min: Option<u64>,
    /// The greatest number of values, where the constraint gives one.
    pub max: Option<u64>,
}

/// A named shape with its properties in declaration order.
#[derive(Debug, PartialEq, Eq)]
pub struct ShapeInfo {
    /// The label under which the shape was declared.
    pub id: String,
    /// The name of the shape: its label.
    pub name: String,
    pub properties: Vec<PropertyInfo>,
}

/// The mathematical value of a [`PropertyInfo`].
pub ghost struct PropertyView {
    pub name: Seq<char>,
    pub predicate: Seq<char>,
    pub range: Seq<char>,
    pub min: Option<u64>,
    pub max: Option<u64>,
}

/// The mathematical value of a [`ShapeInfo`].
pub ghost struct ShapeView {
    pub id: Seq<char>,
    pub name: Seq<char>,
    pub properties: Seq<PropertyView>,
}

impl View for PropertyInfo {
    type V = PropertyView;

    open spec fn view(&self) -> PropertyView {
        PropertyView {
            name: self.name@,
            predicate: self.predicate@,
            range: self.range@,
            min: self.min,
            max: self.max,
        }
    }
}

/// The values of a sequence of properties, one for one.
pub open spec fn property_views(properties: Seq<PropertyInfo>) -> Seq<PropertyView> {
    Seq::new(properties.len(), |i: int| properties[i]@)
}

impl View for ShapeInfo {
    type V = ShapeView;

    open spec fn view(&self) -> ShapeView {
        ShapeView { id: self.id@, name: self.name@, properties: property_views(self.properties@) }
    }
}

/// The values of a sequence of shapes, one for one.
pub open spec fn shape_views(shapes: Seq<ShapeInfo>) -> Seq<ShapeView> {
    Seq::new(shapes.len(), |i: int| shapes[i]@)
}

/// The last of the properties that has the name `name`.
pub open spec fn last_named(properties: Seq<PropertyView>, name: Seq<char>) -> Option<
    PropertyView,
>
    decreases properties.len(),
{
    if properties.len() == 0 {
        None
    } else if properties.last().name == name {
        Some(properties.last())
    } else {
        last_named(properties.drop_last(), name)
    }
}

/// The last of the shapes that has the name `name`.
pub open spec fn last_shape(shapes: Seq<ShapeView>, name: Seq<char>) -> Option<ShapeView>
    decreases shapes.len(),
{
    if shapes.len() == 0 {
        None
    } else if shapes.last().name == name {
        Some(shapes.last())
    } else {
        last_shape(shapes.drop_last(), name)
    }
}

impl Clone for PropertyInfo {
    /// A copy of the property.
    fn clone(&self) -> (copy: Self)
        ensures
            copy@ == self@,
    {
        PropertyInfo {
            name: self.name.clone(),
            predicate: self.predicate.clone(),
            range: self.range.clone(),
            min: self.min,
            max: self.max,
        }
    }
}

impl Clone for ShapeInfo {
    /// A copy of the shape.
    fn clone(&self) -> (copy: Self)
        ensures
            copy@ == self@,
    {
        let mut properties: Vec<PropertyInfo> = Vec::new();
        let mut i: usize = 0;
        while i < self.properties.len()
            invariant
                i <= self.properties.len(),
                properties.len() == i,
                forall|k: int| 0 <= k < i ==> (#[trigger] properties[k])@ == self.properties[k]@,
            decreases self.properties.len() - i,
        {
            properties.push(self.properties[i].clone());
            i = i + 1;
        }
        assert(property_views(properties@) =~= property_views(self.properties@));
        ShapeInfo { id: self.id.clone(), name: self.name.clone(), properties }
    }
}

} // verus!
