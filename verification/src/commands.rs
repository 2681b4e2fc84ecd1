//! Plain configuration data for the programs built around the library: the
//! gateway's commands and the farming cluster's subcommands, stripped to the
//! values the logic reads.

use vstd::prelude::*;

verus! {

/// The default size limit for fetched objects, based on the maximum
/// consensus block size.
pub const DEFAULT_MAX_SIZE: usize = 5 * 1024 * 1024;

/// Network-facing settings of a gateway.
#[derive(Clone, Debug, PartialEq, Eq, Structural)]
pub struct NetworkArgs {
    /// Whether peers with private addresses may be dialed.
    pub allow_private_ips: bool,
    /// How many outgoing connections the gateway keeps.
    pub out_connections: u32,
}

/// Options for running a gateway.
#[derive(Clone, Debug, PartialEq, Eq, Structural)]
pub struct GatewayOptions {
    /// Development mode; implies dialing private addresses.
    pub dev: bool,
    /// The maximum object size to fetch; larger objects are refused.
    pub max_size: usize,
    /// The gateway's network settings.
    pub dsn_options: NetworkArgs,
}

impl GatewayOptions {
    /// Applies what development mode implies: private addresses may then
    /// always be dialed.
    pub fn apply_dev_defaults(&mut self)
        ensures
            final(self).dev == old(self).dev,
            final(self).max_size == old(self).max_size,
            final(self).dsn_options.out_connections == old(self).dsn_options.out_connections,
            final(self).dsn_options.allow_private_ips == (old(self).dev || old(
                self,
            ).dsn_options.allow_private_ips),
    {
        if self.dev {
            self.dsn_options.allow_private_ips = true;
        }
    }
}

/// Options for running a gateway with an RPC server.
#[derive(Clone, Debug)]
pub struct RpcCommandOptions {
    /// The shared gateway options.
    pub gateway_options: GatewayOptions,
    /// The address the RPC server listens on.
    pub rpc_listen_on: String,
}

/// Options for running a gateway with an HTTP server.
#[derive(Clone, Debug)]
pub struct HttpCommandOptions {
    /// The shared gateway options.
    pub gateway_options: GatewayOptions,
    /// The address the HTTP server listens on.
    pub http_listen_on: String,
}

/// Commands for working with a gateway.
#[derive(Clone, Debug)]
pub enum Command {
    /// Run a data gateway with an RPC server.
    Rpc(RpcCommandOptions),
    /// Run a data gateway with an HTTP server.
    Http(HttpCommandOptions),
}

/// Arguments of a farming cluster controller.
#[derive(Clone, Debug)]
pub struct ControllerArgs {
    /// Further cluster components to start beside this one.
    pub additional_components: Vec<String>,
}

/// Arguments of a farming cluster farmer.
#[derive(Clone, Debug)]
pub struct FarmerArgs {
    /// Further cluster components to start beside this one.
    pub additional_components: Vec<String>,
}

/// Arguments of a farming cluster plotter.
#[derive(Clone, Debug)]
pub struct PlotterArgs {
    /// Further cluster components to start beside this one.
    pub additional_components: Vec<String>,
}

/// Arguments of a farming cluster cache.
#[derive(Clone, Debug)]
pub struct CacheArgs {
    /// Further cluster components to start beside this one.
    pub additional_components: Vec<String>,
}

/// The farming cluster's subcommands.
#[derive(Clone, Debug)]
pub enum ClusterSubcommand {
    /// Farming cluster controller.
    Controller(ControllerArgs),
    /// Farming cluster farmer.
    Farmer(FarmerArgs),
    /// Farming cluster plotter.
    Plotter(PlotterArgs),
    /// Farming cluster cache.
    Cache(CacheArgs),
}

impl ClusterSubcommand {
    /// The additional component strings a subcommand carries.
    pub open spec fn additional_components_spec(self) -> Seq<String> {
        match self {
            ClusterSubcommand::Controller(args) => args.additional_components@,
            ClusterSubcommand::Farmer(args) => args.additional_components@,
            ClusterSubcommand::Plotter(args) => args.additional_components@,
            ClusterSubcommand::Cache(args) => args.additional_components@,
        }
    }

    /// Moves the additional component strings out of the subcommand,
    /// leaving none behind; the subcommand's kind is kept.
    pub fn extract_additional_components(&mut self) -> (r: Vec<String>)
        ensures
            r@ == old(self).additional_components_spec(),
            final(self).additional_components_spec().len() == 0,
            (*final(self)) is Controller <==> (*old(self)) is Controller,
            (*final(self)) is Farmer <==> (*old(self)) is Farmer,
            (*final(self)) is Plotter <==> (*old(self)) is Plotter,
            (*final(self)) is Cache <==> (*old(self)) is Cache,
    {
        let mut components: Vec<String> = Vec::new();
        match self {
            ClusterSubcommand::Controller(args) => {
                core::mem::swap(&mut components, &mut args.additional_components);
            },
            ClusterSubcommand::Farmer(args) => {
                core::mem::swap(&mut components, &mut args.additional_components);
            },
            ClusterSubcommand::Plotter(args) => {
                core::mem::swap(&mut components, &mut args.additional_components);
            },
            ClusterSubcommand::Cache(args) => {
                core::mem::swap(&mut components, &mut args.additional_components);
            },
        }
        components
    }
}

} // verus!
