use vstd::prelude::*;

verus! {

/// A scalar from the tree-structured interchange format: text, an integer,
/// a boolean, a decimal held in thousandths, or nothing.  The embedding
/// program converts the format's own value type to and from this one at the
/// boundary.
#[derive(Clone, Debug, PartialEq)]
pub enum ConfigValue {
    Text(String),
    Int(i128),
    Bool(bool),
    /// A decimal number in thousandths: `1500` stands for one and a half.
    Decimal1000(i64),
    Null,
}

/// Mathematical model of a [`ConfigValue`].
pub enum ConfigValueView {
    Text(Seq<char>),
    Int(int),
    Bool(bool),
    Decimal1000(int),
    Null,
}

impl View for ConfigValue {
    type V = ConfigValueView;

    open spec fn view(&self) -> ConfigValueView {
        match self {
            ConfigValue::Text(s) => ConfigValueView::Text(s@),
            ConfigValue::Int(i) => ConfigValueView::Int(*i as int),
            ConfigValue::Bool(b) => ConfigValueView::Bool(*b),
            ConfigValue::Decimal1000(d) => ConfigValueView::Decimal1000(*d as int),
            ConfigValue::Null => ConfigValueView::Null,
        }
    }
}

} // verus!
