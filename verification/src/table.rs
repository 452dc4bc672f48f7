//! Rendering of the rounded tables that the commands print, through `tabled`.
use vstd::prelude::*;
use tabled::builder::Builder;
use tabled::settings::object::Rows;
use tabled::settings::Alignment;
use tabled::settings::Margin;
use tabled::settings::Modify;
use tabled::settings::Style;
use tabled::settings::Width;

verus! {

/// The text that `tabled` renders for a table built from `header` and `rows` with
/// the rounded style and a margin of 2 columns on the left and 1 line above and
/// below.
pub uninterp spec fn rounded_table_text(header: Seq<Seq<char>>, rows: Seq<Seq<Seq<char>>>) -> Seq<
    char,
>;

/// As `rounded_table_text`, with the body rows wrapped at `width` columns,
/// keeping words whole.
pub uninterp spec fn rounded_wrapped_table_text(
    header: Seq<Seq<char>>,
    rows: Seq<Seq<Seq<char>>>,
    width: nat,
) -> Seq<char>;

/// As `rounded_table_text`, with the body rows aligned left.
pub uninterp spec fn rounded_left_table_text(header: Seq<Seq<char>>, rows: Seq<Seq<Seq<char>>>) -> Seq<
    char,
>;

/// As `rounded_table_text`, with the body rows aligned left and then wrapped at
/// `width` columns, keeping words whole.
pub uninterp spec fn rounded_left_wrapped_table_text(
    header: Seq<Seq<char>>,
    rows: Seq<Seq<Seq<char>>>,
    width: nat,
) -> Seq<char>;

/// `tabled::builder::Builder` with `header` and `rows`, built and rendered with
/// `Style::rounded()` and `Margin::new(2, 0, 1, 1)`.
#[verifier::external_body]
pub(crate) fn rounded_table(header: &Vec<String>, rows: &Vec<Vec<String>>) -> (res: String)
    ensures
        res@ == rounded_table_text(header.deep_view(), rows.deep_view()),
{
    let mut builder = Builder::default();
    builder.set_header(header.clone());
    for row in rows.iter() {
        builder.push_record(row.clone());
    }
    builder.build().with(Style::rounded()).with(Margin::new(2, 0, 1, 1)).to_string()
}

/// As `rounded_table`, with `Modify::new(Rows::new(1..)).with(Width::wrap(width).keep_words())`
/// applied after the style.
#[verifier::external_body]
pub(crate) fn rounded_wrapped_table(header: &Vec<String>, rows: &Vec<Vec<String>>, width: usize) -> (res:
    String)
    ensures
        res@ == rounded_wrapped_table_text(header.deep_view(), rows.deep_view(), width as nat),
{
    let mut builder = Builder::default();
    builder.set_header(header.clone());
    for row in rows.iter() {
        builder.push_record(row.clone());
    }
    builder.build().with(Style::rounded()).with(
        Modify::new(Rows::new(1..)).with(Width::wrap(width).keep_words()),
    ).with(Margin::new(2, 0, 1, 1)).to_string()
}

/// As `rounded_table`, with `Modify::new(Rows::new(1..)).with(Alignment::left())`
/// applied after the style.
#[verifier::external_body]
pub(crate) fn rounded_left_table(header: &Vec<String>, rows: &Vec<Vec<String>>) -> (res: String)
    ensures
        res@ == rounded_left_table_text(header.deep_view(), rows.deep_view()),
{
    let mut builder = Builder::default();
    builder.set_header(header.clone());
    for row in rows.iter() {
        builder.push_record(row.clone());
    }
    builder.build().with(Style::rounded()).with(Modify::new(Rows::new(1..)).with(Alignment::left())).with(
        Margin::new(2, 0, 1, 1),
    ).to_string()
}

/// As `rounded_left_table`, followed by
/// `Modify::new(Rows::new(1..)).with(Width::wrap(width).keep_words())`.
#[verifier::external_body]
pub(crate) fn rounded_left_wrapped_table(
    header: &Vec<String>,
    rows: &Vec<Vec<String>>,
    width: usize,
) -> (res: String)
    ensures
        res@ == rounded_left_wrapped_table_text(header.deep_view(), rows.deep_view(), width as nat),
{
    let mut builder = Builder::default();
    builder.set_header(header.clone());
    for row in rows.iter() {
        builder.push_record(row.clone());
    }
    builder.build().with(Style::rounded()).with(Modify::new(Rows::new(1..)).with(Alignment::left())).with(
        Margin::new(2, 0, 1, 1),
    ).with(Modify::new(Rows::new(1..)).with(Width::wrap(width).keep_words())).to_string()
}

} // verus!
