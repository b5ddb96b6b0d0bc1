//! The dashboard template's data.

use vstd::prelude::*;

verus! {

/// A user listed on the dashboard.
pub struct User {
    pub id: String,
    pub name: String,
    pub email: String,
    pub role: String,
    pub created_at: i64,
}

/// A chart: labels and their values.
pub struct ChartData {
    pub labels: Vec<String>,
    pub values: Vec<i64>,
}

} // verus!
