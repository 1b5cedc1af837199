//! Report commands: the records they return and the default date range of
//! the sales report.
use vstd::prelude::*;
use crate::clock::{UtcStamp, utc_in_range, date_text, month_start_text, format_date, format_month_start,
    utc_now_fields};

verus! {

pub struct DashboardStats {
    pub total_sales_today: i64,
    pub total_invoices_today: i64,
    pub low_stock_count: i64,
    pub outstanding_balance: i64,
}

pub struct SalesReportItem {
    pub date: String,
    pub total_sales: i64,
    pub invoice_count: i64,
    pub cash_sales: i64,
    pub credit_sales: i64,
    pub bank_sales: i64,
}

pub struct InventoryReportItem {
    pub id: String,
    pub name: String,
    pub sku: Option<String>,
    pub category: String,
    pub stock_qty: i64,
    pub low_stock_threshold: i64,
    pub unit: String,
    pub price: i64,
    pub value: i64,
}

pub struct SalesReportInput {
    pub from_date: Option<String>,
    pub to_date: Option<String>,
}

/// The dates a sales report covers: those given, by default from the first
/// of the current month to today (UTC), given the current time `now`.
pub fn sales_report_range_at(input: SalesReportInput, now: UtcStamp) -> (r: (String, String))
    requires
        utc_in_range(now),
    ensures
        r.0@ == (match input.from_date {
            Some(f) => f@,
            None => month_start_text(now),
        }),
        r.1@ == (match input.to_date {
            Some(t) => t@,
            None => date_text(now),
        }),
{
    let from = match input.from_date {
        Some(f) => f,
        None => format_month_start(now),
    };
    let to = match input.to_date {
        Some(t) => t,
        None => format_date(now),
    };
    (from, to)
}

/// The dates a sales report covers, with the current time read from the
/// clock where a default is needed.
pub fn sales_report_range(input: SalesReportInput) -> (r: (String, String))
    ensures
        input.from_date matches Some(f) ==> r.0@ == f@,
        input.from_date is None ==> exists|t: UtcStamp| utc_in_range(t) && r.0@ == month_start_text(t),
        input.to_date matches Some(d) ==> r.1@ == d@,
        input.to_date is None ==> exists|t: UtcStamp| utc_in_range(t) && r.1@ == date_text(t),
{
    let from = match input.from_date {
        Some(f) => f,
        None => {
            let now = utc_now_fields();
            format_month_start(now)
        },
    };
    let to = match input.to_date {
        Some(t) => t,
        None => {
            let now = utc_now_fields();
            format_date(now)
        },
    };
    (from, to)
}

impl SalesReportItem {
    /// A report row; a day the database could not name is reported as empty text.
    pub fn from_row(date: Option<String>, total_sales: i64, invoice_count: i64, cash_sales: i64,
        credit_sales: i64, bank_sales: i64) -> (r: SalesReportItem)
        ensures
            r.date@ == (match date {
                Some(d) => d@,
                None => Seq::<char>::empty(),
            }),
            r.total_sales == total_sales,
            r.invoice_count == invoice_count,
            r.cash_sales == cash_sales,
            r.credit_sales == credit_sales,
            r.bank_sales == bank_sales,
    {
        let date = match date {
            Some(d) => d,
            None => String::new(),
        };
        SalesReportItem { date, total_sales, invoice_count, cash_sales, credit_sales, bank_sales }
    }
}

} // verus!
