//! Product commands.
use vstd::prelude::*;
use crate::repositories::products::CreateProductInput;

verus! {

pub struct ListProductsInput {
    pub category: Option<String>,
}

pub struct CreateProductInputCmd {
    pub name: String,
    pub sku: Option<String>,
    pub category: String,
    pub description: String,
    pub color: Option<String>,
    pub size: Option<String>,
    pub finish: Option<String>,
    pub unit: String,
    pub price: i64,
    pub pieces_per_carton: Option<i64>,
    pub stock_qty: i64,
    pub low_stock_threshold: i64,
    pub image_url: Option<String>,
    pub is_published: Option<bool>,
}

pub struct UpdateProductInput {
    pub id: String,
    pub name: String,
    pub sku: Option<String>,
    pub category: String,
    pub description: String,
    pub color: Option<String>,
    pub size: Option<String>,
    pub finish: Option<String>,
    pub unit: String,
    pub price: i64,
    pub pieces_per_carton: Option<i64>,
    pub stock_qty: i64,
    pub low_stock_threshold: i64,
    pub image_url: Option<String>,
    pub is_published: Option<bool>,
}

/// The stored publication flag: 1 unless the command asks for an
/// unpublished product.
pub open spec fn published_flag(is_published: Option<bool>) -> i64 {
    match is_published {
        Some(false) => 0,
        _ => 1,
    }
}

fn flag_of(is_published: Option<bool>) -> (r: i64)
    ensures
        r == published_flag(is_published),
{
    match is_published {
        Some(false) => 0,
        _ => 1,
    }
}

/// Whether a repository record carries the command's fields: the description
/// always present, no company, purchase price or tile area (the command does
/// not carry them), and the publication flag as stored.
pub open spec fn product_record_from(
    r: CreateProductInput,
    name: String,
    sku: Option<String>,
    category: String,
    description: String,
    color: Option<String>,
    size: Option<String>,
    finish: Option<String>,
    unit: String,
    price: i64,
    pieces_per_carton: Option<i64>,
    stock_qty: i64,
    low_stock_threshold: i64,
    image_url: Option<String>,
    is_published: Option<bool>,
) -> bool {
    &&& r.name == name
    &&& r.sku == sku
    &&& r.category == category
    &&& r.description == Some(description)
    &&& r.color == color
    &&& r.size == size
    &&& r.finish == finish
    &&& r.company is None
    &&& r.unit == unit
    &&& r.price == price
    &&& r.purchase_price == 0
    &&& r.pieces_per_carton == pieces_per_carton
    &&& r.area_per_tile_milli is None
    &&& r.stock_qty == stock_qty
    &&& r.low_stock_threshold == low_stock_threshold
    &&& r.image_url == image_url
    &&& r.is_published == published_flag(is_published)
}

impl CreateProductInputCmd {
    /// The product record to store.
    pub fn into_record(self) -> (r: CreateProductInput)
        ensures
            product_record_from(r, self.name, self.sku, self.category, self.description, self.color,
                self.size, self.finish, self.unit, self.price, self.pieces_per_carton, self.stock_qty,
                self.low_stock_threshold, self.image_url, self.is_published),
    {
        CreateProductInput {
            name: self.name,
            sku: self.sku,
            category: self.category,
            description: Some(self.description),
            color: self.color,
            size: self.size,
            finish: self.finish,
            company: None,
            unit: self.unit,
            price: self.price,
            purchase_price: 0,
            pieces_per_carton: self.pieces_per_carton,
            area_per_tile_milli: None,
            stock_qty: self.stock_qty,
            low_stock_threshold: self.low_stock_threshold,
            image_url: self.image_url,
            is_published: flag_of(self.is_published),
        }
    }
}

impl UpdateProductInput {
    /// The id of the product to update and its new record.
    pub fn into_record(self) -> (r: (String, CreateProductInput))
        ensures
            r.0 == self.id,
            product_record_from(r.1, self.name, self.sku, self.category, self.description, self.color,
                self.size, self.finish, self.unit, self.price, self.pieces_per_carton, self.stock_qty,
                self.low_stock_threshold, self.image_url, self.is_published),
    {
        let record = CreateProductInput {
            name: self.name,
            sku: self.sku,
            category: self.category,
            description: Some(self.description),
            color: self.color,
            size: self.size,
            finish: self.finish,
            company: None,
            unit: self.unit,
            price: self.price,
            purchase_price: 0,
            pieces_per_carton: self.pieces_per_carton,
            area_per_tile_milli: None,
            stock_qty: self.stock_qty,
            low_stock_threshold: self.low_stock_threshold,
            image_url: self.image_url,
            is_published: flag_of(self.is_published),
        };
        (self.id, record)
    }
}

} // verus!
