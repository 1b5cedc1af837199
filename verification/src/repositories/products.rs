//! Products: catalogue records. The tile area (display only) is kept in
//! thousandths of a square metre.
use vstd::prelude::*;

verus! {

#[derive(Debug, Clone)]
pub struct Product {
    pub id: String,
    pub name: String,
    pub sku: Option<String>,
    pub category: String,
    pub description: Option<String>,
    pub color: Option<String>,
    pub size: Option<String>,
    pub finish: Option<String>,
    /// Supplier/company name; surfaced for sanitary-ware in the UI.
    pub company: Option<String>,
    pub unit: String,
    pub price: i64,
    pub purchase_price: i64,
    pub pieces_per_carton: Option<i64>,
    pub area_per_tile_milli: Option<i64>,
    pub stock_qty: i64,
    pub low_stock_threshold: i64,
    pub image_url: Option<String>,
    pub is_published: i64,
    pub created_at: String,
    pub updated_at: String,
}

#[derive(Debug, Clone)]
pub struct CreateProductInput {
    pub name: String,
    pub sku: Option<String>,
    pub category: String,
    pub description: Option<String>,
    pub color: Option<String>,
    pub size: Option<String>,
    pub finish: Option<String>,
    pub company: Option<String>,
    pub unit: String,
    pub price: i64,
    pub purchase_price: i64,
    pub pieces_per_carton: Option<i64>,
    pub area_per_tile_milli: Option<i64>,
    pub stock_qty: i64,
    pub low_stock_threshold: i64,
    pub image_url: Option<String>,
    pub is_published: i64,
}

} // verus!
