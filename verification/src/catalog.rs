//! The permission catalog: the fixed, code-defined list of grantable
//! permission keys, grouped by category.
//!
//! The catalog documents valid keys and feeds the role-editing views.
//! Authorization itself compares against role-stored keys directly, so a
//! key outside this list is honored rather than rejected.

use vstd::prelude::*;
use vstd::string::StringExecFns;

verus! {

/// The mathematical shape of one catalog entry.
#[verifier::ext_equal]
pub ghost struct PermissionView {
    pub key: Seq<char>,
    pub name: Seq<char>,
    pub description: Seq<char>,
    pub category: Seq<char>,
}

/// One grantable capability: a stable `<domain>:<verb>` key with its
/// display name, description and category.
pub struct Permission {
    pub key: String,
    pub name: String,
    pub description: String,
    pub category: String,
}

impl View for Permission {
    type V = PermissionView;

    open spec fn view(&self) -> PermissionView {
        PermissionView {
            key: self.key@,
            name: self.name@,
            description: self.description@,
            category: self.category@,
        }
    }
}

/// The views of a permission list, entry by entry.
pub open spec fn perms_view(s: Seq<Permission>) -> Seq<PermissionView> {
    s.map_values(|p: Permission| p@)
}

/// The full catalog, in its fixed order.
pub open spec fn catalog() -> Seq<PermissionView> {
    seq![
        (PermissionView {
            key: "customers:read"@,
            name: "View Customers"@,
            description: "View customer information and details"@,
            category: "Customer Management"@,
        }),
        (PermissionView {
            key: "customers:write"@,
            name: "Manage Customers"@,
            description: "Create and edit customer information"@,
            category: "Customer Management"@,
        }),
        (PermissionView {
            key: "customers:delete"@,
            name: "Delete Customers"@,
            description: "Delete customer records"@,
            category: "Customer Management"@,
        }),
        (PermissionView {
            key: "inventory:read"@,
            name: "View Inventory"@,
            description: "View inventory items and stock levels"@,
            category: "Inventory Management"@,
        }),
        (PermissionView {
            key: "inventory:write"@,
            name: "Manage Inventory"@,
            description: "Create and edit inventory items"@,
            category: "Inventory Management"@,
        }),
        (PermissionView {
            key: "inventory:delete"@,
            name: "Delete Inventory"@,
            description: "Delete inventory items"@,
            category: "Inventory Management"@,
        }),
        (PermissionView {
            key: "team:read"@,
            name: "View Team"@,
            description: "View team members and their information"@,
            category: "Team Management"@,
        }),
        (PermissionView {
            key: "team:write"@,
            name: "Manage Team"@,
            description: "Create and edit team member accounts"@,
            category: "Team Management"@,
        }),
        (PermissionView {
            key: "team:delete"@,
            name: "Delete Team Members"@,
            description: "Delete team member accounts"@,
            category: "Team Management"@,
        }),
        (PermissionView {
            key: "team:manage_roles"@,
            name: "Manage Roles"@,
            description: "Create, edit, and assign roles and permissions"@,
            category: "Team Management"@,
        }),
        (PermissionView {
            key: "expenses:read"@,
            name: "View Expenses"@,
            description: "View expense records and reports"@,
            category: "Expense Tracking"@,
        }),
        (PermissionView {
            key: "expenses:write"@,
            name: "Manage Expenses"@,
            description: "Create and edit expense records"@,
            category: "Expense Tracking"@,
        }),
        (PermissionView {
            key: "expenses:delete"@,
            name: "Delete Expenses"@,
            description: "Delete expense records"@,
            category: "Expense Tracking"@,
        }),
        (PermissionView {
            key: "shipping:read"@,
            name: "View Shipments"@,
            description: "View shipment information and tracking"@,
            category: "Shipping Tracking"@,
        }),
        (PermissionView {
            key: "shipping:write"@,
            name: "Manage Shipments"@,
            description: "Create and edit shipment records"@,
            category: "Shipping Tracking"@,
        }),
        (PermissionView {
            key: "shipping:delete"@,
            name: "Delete Shipments"@,
            description: "Delete shipment records"@,
            category: "Shipping Tracking"@,
        }),
        (PermissionView {
            key: "api:access"@,
            name: "API Access"@,
            description: "Access API endpoints for integration"@,
            category: "API Access"@,
        }),
        (PermissionView {
            key: "api:admin"@,
            name: "API Administration"@,
            description: "Manage API keys and administrative functions"@,
            category: "API Access"@,
        }),
    ]
}

fn perm(key: &str, name: &str, description: &str, category: &str) -> (r: Permission)
    ensures
        r@ == (PermissionView { key: key@, name: name@, description: description@, category: category@ }),
{
    Permission {
        key: String::from_str(key),
        name: String::from_str(name),
        description: String::from_str(description),
        category: String::from_str(category),
    }
}

/// The whole catalog as owned values, exactly [`catalog`] in its order.
pub fn get_all_permissions() -> (r: Vec<Permission>)
    ensures
        perms_view(r@) == catalog(),
{
    let mut v: Vec<Permission> = Vec::new();
    v.push(perm("customers:read", "View Customers",
        "View customer information and details", "Customer Management"));
    v.push(perm("customers:write", "Manage Customers",
        "Create and edit customer information", "Customer Management"));
    v.push(perm("customers:delete", "Delete Customers",
        "Delete customer records", "Customer Management"));
    v.push(perm("inventory:read", "View Inventory",
        "View inventory items and stock levels", "Inventory Management"));
    v.push(perm("inventory:write", "Manage Inventory",
        "Create and edit inventory items", "Inventory Management"));
    v.push(perm("inventory:delete", "Delete Inventory",
        "Delete inventory items", "Inventory Management"));
    v.push(perm("team:read", "View Team",
        "View team members and their information", "Team Management"));
    v.push(perm("team:write", "Manage Team",
        "Create and edit team member accounts", "Team Management"));
    v.push(perm("team:delete", "Delete Team Members",
        "Delete team member accounts", "Team Management"));
    v.push(perm("team:manage_roles", "Manage Roles",
        "Create, edit, and assign roles and permissions", "Team Management"));
    v.push(perm("expenses:read", "View Expenses",
        "View expense records and reports", "Expense Tracking"));
    v.push(perm("expenses:write", "Manage Expenses",
        "Create and edit expense records", "Expense Tracking"));
    v.push(perm("expenses:delete", "Delete Expenses",
        "Delete expense records", "Expense Tracking"));
    v.push(perm("shipping:read", "View Shipments",
        "View shipment information and tracking", "Shipping Tracking"));
    v.push(perm("shipping:write", "Manage Shipments",
        "Create and edit shipment records", "Shipping Tracking"));
    v.push(perm("shipping:delete", "Delete Shipments",
        "Delete shipment records", "Shipping Tracking"));
    v.push(perm("api:access", "API Access",
        "Access API endpoints for integration", "API Access"));
    v.push(perm("api:admin", "API Administration",
        "Manage API keys and administrative functions", "API Access"));
    proof {
        assert(perms_view(v@) =~= catalog());
    }
    v
}

} // verus!
