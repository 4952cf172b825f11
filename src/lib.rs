// Node-local VM control plane: the slot registry and its state machine, the
// health monitor's per-slot decisions, the hotplug ticket store, the PCI device
// catalog and the GPU selection policy, each with its contract.
pub mod registry;
pub mod monitor;
pub mod text;
pub mod tickets;
pub mod devices;
pub mod hotplug;
