//! Why an operation did not give an answer.
use vstd::prelude::*;
use vstd::string::StringExecFns;

verus! {

/// One of the listings that the inventory offers.
#[derive(Debug, PartialEq, Eq)]
pub enum Listing {
    /// All nodes.
    Nodes,
    /// All pods of the cluster.
    Pods,
    /// All namespaces.
    Namespaces,
    /// The pods of one namespace.
    PodsIn(String),
}

/// Why an operation did not give an answer.
#[derive(Debug, PartialEq, Eq)]
pub enum InsightsError {
    /// A demand for less than no compute.
    NegativeCpu,
    /// A demand for less than no memory.
    NegativeMemory,
    /// A number of replicas that is zero or less.
    NonPositiveReplicaCount,
    /// An application name without a letter.
    EmptyAppName,
    /// A namespace name without a letter.
    EmptyNamespace,
    /// No pod of the namespace has the application name in its own.
    NoMatchingPods { app_name: String, namespace: String },
    /// The inventory could not be reached at all.
    ClientUnavailable { reason: String },
    /// The inventory refused a listing.
    ListingFailed { listing: Listing, reason: String },
}

/// What the look at a request gives: nothing where nothing is wrong with
/// it, and else what is wrong.
pub open spec fn refused(invalid: Option<InsightsError>) -> Result<(), InsightsError> {
    match invalid {
        Some(e) => Err(e),
        None => Ok(()),
    }
}

impl Listing {
    /// A second value with the same contents.
    pub fn duplicate(&self) -> (r: Self)
        ensures
            r == *self,
    {
        match self {
            Listing::Nodes => Listing::Nodes,
            Listing::Pods => Listing::Pods,
            Listing::Namespaces => Listing::Namespaces,
            Listing::PodsIn(namespace) => Listing::PodsIn(namespace.clone()),
        }
    }

    /// What the listing is called in a message.
    pub open spec fn title(self) -> Seq<char> {
        match self {
            Listing::Nodes => "nodes"@,
            Listing::Pods => "pods"@,
            Listing::Namespaces => "namespaces"@,
            Listing::PodsIn(namespace) => "pods in namespace "@ + namespace@,
        }
    }
}

impl InsightsError {
    /// The message of the error.
    pub open spec fn text(self) -> Seq<char> {
        match self {
            InsightsError::NegativeCpu => "CPU cores must be non-negative"@,
            InsightsError::NegativeMemory => "Memory GB must be non-negative"@,
            InsightsError::NonPositiveReplicaCount => "Replica count must be positive"@,
            InsightsError::EmptyAppName => "Application name cannot be empty"@,
            InsightsError::EmptyNamespace => "Namespace cannot be empty"@,
            InsightsError::NoMatchingPods { app_name, namespace } => "No pods found matching '"@
                + app_name@ + "' in namespace '"@ + namespace@ + "'"@,
            InsightsError::ClientUnavailable { reason } => "Failed to create Kubernetes client: "@
                + reason@,
            InsightsError::ListingFailed { listing, reason } => "Failed to list "@
                + listing.title() + ": "@ + reason@,
        }
    }

    /// Whether the error is about what the caller asked, not about what the
    /// inventory holds or how it answered.
    pub open spec fn is_invalid_input(self) -> bool {
        self is NegativeCpu || self is NegativeMemory || self is NonPositiveReplicaCount
            || self is EmptyAppName || self is EmptyNamespace
    }

    /// A second value with the same contents.
    pub fn duplicate(&self) -> (r: Self)
        ensures
            r == *self,
    {
        match self {
            InsightsError::NegativeCpu => InsightsError::NegativeCpu,
            InsightsError::NegativeMemory => InsightsError::NegativeMemory,
            InsightsError::NonPositiveReplicaCount => InsightsError::NonPositiveReplicaCount,
            InsightsError::EmptyAppName => InsightsError::EmptyAppName,
            InsightsError::EmptyNamespace => InsightsError::EmptyNamespace,
            InsightsError::NoMatchingPods { app_name, namespace } => InsightsError::NoMatchingPods {
                app_name: app_name.clone(),
                namespace: namespace.clone(),
            },
            InsightsError::ClientUnavailable { reason } => InsightsError::ClientUnavailable {
                reason: reason.clone(),
            },
            InsightsError::ListingFailed { listing, reason } => InsightsError::ListingFailed {
                listing: listing.duplicate(),
                reason: reason.clone(),
            },
        }
    }

    /// Writes the message of the error.
    pub fn message(&self) -> (r: String)
        ensures
            r@ == self.text(),
    {
        match self {
            InsightsError::NegativeCpu => String::from_str("CPU cores must be non-negative"),
            InsightsError::NegativeMemory => String::from_str("Memory GB must be non-negative"),
            InsightsError::NonPositiveReplicaCount => String::from_str(
                "Replica count must be positive",
            ),
            InsightsError::EmptyAppName => String::from_str("Application name cannot be empty"),
            InsightsError::EmptyNamespace => String::from_str("Namespace cannot be empty"),
            InsightsError::NoMatchingPods { app_name, namespace } => {
                let mut r = String::from_str("No pods found matching '");
                r.append(app_name.as_str());
                r.append("' in namespace '");
                r.append(namespace.as_str());
                r.append("'");
                r
            },
            InsightsError::ClientUnavailable { reason } => {
                let mut r = String::from_str("Failed to create Kubernetes client: ");
                r.append(reason.as_str());
                r
            },
            InsightsError::ListingFailed { listing, reason } => {
                let mut r = String::from_str("Failed to list ");
                match listing {
                    Listing::Nodes => r.append("nodes"),
                    Listing::Pods => r.append("pods"),
                    Listing::Namespaces => r.append("namespaces"),
                    Listing::PodsIn(namespace) => {
                        r.append("pods in namespace ");
                        r.append(namespace.as_str());
                        assert(r@ =~= "Failed to list "@ + listing.title());
                    },
                }
                r.append(": ");
                r.append(reason.as_str());
                r
            },
        }
    }
}

} // verus!
