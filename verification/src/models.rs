//! The shape of a plugin manifest as `omarchy plugin catalog` reports it.
use vstd::prelude::*;

verus! {

/// One configurable field of a plugin's settings schema.
///
/// The numeric bounds are kept as IEEE-754 bit patterns (`f64::to_bits`):
/// nothing here computes with them, and they travel unchanged. The default
/// value is kept as its JSON text.
pub struct SchemaField {
    pub key: String,
    pub field_type: String,
    pub label: String,
    pub min_bits: Option<u64>,
    pub max_bits: Option<u64>,
    pub step_bits: Option<u64>,
    pub default_value: Option<String>,
    pub description: Option<String>,
}

/// The bar-widget part of a manifest: display data and the settings schema.
/// `defaults` is kept as its JSON text.
pub struct BarWidget {
    pub display_name: Option<String>,
    pub description: Option<String>,
    pub category: Option<String>,
    pub defaults: Option<String>,
    pub schema: Vec<SchemaField>,
}

/// A plugin manifest.
pub struct Plugin {
    pub id: String,
    pub name: String,
    pub description: String,
    pub kinds: Vec<String>,
    pub first_party: Option<bool>,
    pub version: Option<String>,
    pub author: Option<String>,
    pub bar_widget: Option<BarWidget>,
}

impl Plugin {
    /// The settings schema: the bar widget's fields, or none without a bar widget.
    pub open spec fn schema_view(&self) -> Seq<SchemaField> {
        match &self.bar_widget {
            Some(bw) => bw.schema@,
            None => Seq::empty(),
        }
    }

    /// The settings schema of the plugin.
    pub fn schema(&self) -> (r: &[SchemaField])
        ensures
            r@ == self.schema_view(),
    {
        match &self.bar_widget {
            Some(bw) => bw.schema.as_slice(),
            None => &[],
        }
    }
}

} // verus!
