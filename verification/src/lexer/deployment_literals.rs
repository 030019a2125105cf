//! Markers of the lines of a `deploy app` block.

use vstd::prelude::*;

verus! {

/// Opens the declaration of a deployed application.
pub const DEPLOY_APP_PREFIX: &'static str = "deploy app";

/// Introduces the namespace.
pub const NAMESPACE_PREFIX: &'static str = "namespace:";

/// Introduces the replica count.
pub const REPLICAS_PREFIX: &'static str = "replicas:";

/// Introduces the image reference.
pub const IMAGE_PREFIX: &'static str = "image:";

/// Opens the block of environment variables.
pub const ENV_PREFIX: &'static str = "env {";

/// The value carried by the token of an `env` block.
pub const ENV_TOKEN_VALUE: &'static str = "env";

/// Opens the block of resource requirements.
pub const RESOURCES_PREFIX: &'static str = "resources {";

/// The value carried by the token of a `resources` block.
pub const RESOURCES_TOKEN_VALUE: &'static str = "resources";

/// Opens the block of resource limits.
pub const LIMITS_PREFIX: &'static str = "limits {";

/// The value carried by the token of a `limits` block.
pub const LIMITS_TOKEN_VALUE: &'static str = "limits";

/// Opens the block of resource requests.
pub const REQUESTS_PREFIX: &'static str = "requests {";

/// The value carried by the token of a `requests` block.
pub const REQUESTS_TOKEN_VALUE: &'static str = "requests";

/// Introduces a memory quantity.
pub const MEMORY_PREFIX: &'static str = "memory:";

/// Introduces a CPU quantity.
pub const CPU_PREFIX: &'static str = "cpu:";

/// Opens the block of storage settings.
pub const STORAGE_PREFIX: &'static str = "storage {";

/// The value carried by the token of a `storage` block.
pub const STORAGE_TOKEN_VALUE: &'static str = "storage";

/// Introduces the name of a volume.
pub const VOLUME_PREFIX: &'static str = "volume:";

/// Introduces the size of a volume.
pub const SIZE_PREFIX: &'static str = "size:";

} // verus!
