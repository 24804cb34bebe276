//! The system-proxy state machine.
//!
//! `Sysopt` mirrors engine availability into the operating system's proxy
//! settings. It remembers the OS setting observed before this program's
//! first change (`previous`) so it can be restored, tracks what this program
//! last pushed (`current`), and owns the flag that keeps at most one guard
//! loop alive. Every operation is specified as a pure transition over
//! `SysoptView`, with the OS read injected as an argument, so sequences of
//! operations can be reasoned about and tested without touching the OS; the
//! OS writes themselves go through the trusted wrappers at the end of this
//! file.
//!
//! Two bounds set by the OS capability this build links against. First, the
//! restore model is narrower than the settings the OS may hold: a snapshot
//! keeps one enablement, host, port and bypass list but no protocol slot,
//! an enabled restore is pushed into the HTTP slot, and a disabled restore
//! is issued as one full clear, so a pre-existing configuration that
//! differed per protocol slot is not reproduced slot by slot. Second, a
//! push returns no status and cannot be observed to fail, so a rejected
//! setting is not reportable as an error; the manager's in-memory state is
//! written only after the pushes are issued, which keeps it consistent for
//! a retry whatever the OS did.

use vstd::prelude::*;
use vstd::string::*;
use crate::config::{IConfig, PortConfig};

verus! {

/// One OS-level proxy setting as this library models it.
#[derive(Clone, Debug)]
pub struct ProxySetting {
    pub is_enabled: bool,
    pub host: String,
    pub port: u16,
    pub bypass: String,
}

/// Mathematical value of a proxy setting.
pub ghost struct ProxySettingView {
    pub is_enabled: bool,
    pub host: Seq<char>,
    pub port: u16,
    pub bypass: Seq<char>,
}

impl View for ProxySetting {
    type V = ProxySettingView;

    open spec fn view(&self) -> ProxySettingView {
        ProxySettingView {
            is_enabled: self.is_enabled,
            host: self.host@,
            port: self.port,
            bypass: self.bypass@,
        }
    }
}

impl DeepView for ProxySetting {
    type V = ProxySettingView;

    open spec fn deep_view(&self) -> ProxySettingView {
        self.view()
    }
}

/// The protocol slot an OS push addresses.
pub enum ProxyProtocol {
    Http,
    Https,
    Socks,
}

/// Why a proxy operation could not run: the port binding, or one of its
/// ports, was never discovered.
#[derive(Clone, Copy, Debug, PartialEq, Eq)]
pub enum SysError {
    MissingPortConfig,
    MissingHttpPort,
    MissingSocksPort,
}

/// Mathematical value of the manager's state.
pub ghost struct SysoptView {
    pub previous: Option<ProxySettingView>,
    pub current: Option<ProxySettingView>,
    pub guard_running: bool,
    pub bypass: Seq<char>,
}

/// The system-proxy manager. The ghost `os_calls` log witnesses, in order,
/// every push and clear this manager has issued against the OS, so each
/// operation's contract states exactly what reached the OS, not only what
/// was recorded.
pub struct Sysopt {
    pub previous: Option<ProxySetting>,
    pub current: Option<ProxySetting>,
    pub guard_running: bool,
    pub bypass: String,
    pub os_calls: Ghost<Seq<OsCall>>,
}

impl View for Sysopt {
    type V = SysoptView;

    open spec fn view(&self) -> SysoptView {
        SysoptView {
            previous: self.previous.deep_view(),
            current: self.current.deep_view(),
            guard_running: self.guard_running,
            bypass: self.bypass@,
        }
    }
}

/// The setting this program pushes while the feature is enabled: loopback
/// host, the discovered HTTP port, and the platform's bypass list.
pub open spec fn spec_desired(bypass: Seq<char>, port: u16) -> ProxySettingView {
    ProxySettingView { is_enabled: true, host: "127.0.0.1"@, port, bypass }
}

/// The error a port binding yields, if any: the binding itself, then its
/// HTTP port, then its SOCKS port must be present.
pub open spec fn spec_port_error(ports: Option<PortConfig>) -> Option<SysError> {
    match ports {
        None => Some(SysError::MissingPortConfig),
        Some(pc) => if pc.http_port is None {
            Some(SysError::MissingHttpPort)
        } else if pc.socks_port is None {
            Some(SysError::MissingSocksPort)
        } else {
            None
        },
    }
}

/// The `init` transition: a no-op while the feature is disabled; otherwise
/// it captures the observed OS setting into `previous` (at most once: an
/// existing snapshot is never overwritten) and makes the desired setting
/// current. Yields the new state, the setting to push, and the error.
pub open spec fn spec_init(
    st: SysoptView,
    enabled: bool,
    ports: Option<PortConfig>,
    observed: Option<ProxySettingView>,
) -> (SysoptView, Option<ProxySettingView>, Option<SysError>) {
    if !enabled {
        (st, None, None)
    } else {
        match spec_port_error(ports) {
            Some(e) => (st, None, Some(e)),
            None => {
                let desired = spec_desired(st.bypass, ports->Some_0.http_port->Some_0);
                (
                    SysoptView {
                        previous: if st.previous is None {
                            observed
                        } else {
                            st.previous
                        },
                        current: Some(desired),
                        guard_running: st.guard_running,
                        bypass: st.bypass,
                    },
                    Some(desired),
                    None,
                )
            },
        }
    }
}

/// The `update` transition: on a state that was never initialized it
/// degrades to `init`; otherwise it re-applies the desired setting with the
/// latest values, leaving the `previous` snapshot untouched.
pub open spec fn spec_update(
    st: SysoptView,
    enabled: bool,
    ports: Option<PortConfig>,
    observed: Option<ProxySettingView>,
) -> (SysoptView, Option<ProxySettingView>, Option<SysError>) {
    if st.previous is None && st.current is None {
        spec_init(st, enabled, ports, observed)
    } else if !enabled {
        (st, None, None)
    } else {
        match spec_port_error(ports) {
            Some(e) => (st, None, Some(e)),
            None => {
                let desired = spec_desired(st.bypass, ports->Some_0.http_port->Some_0);
                (
                    SysoptView {
                        previous: st.previous,
                        current: Some(desired),
                        guard_running: st.guard_running,
                        bypass: st.bypass,
                    },
                    Some(desired),
                    None,
                )
            },
        }
    }
}

/// The setting `reset` restores. With a `previous` snapshot: if its port
/// equals the currently-applied port, the snapshot is restored force-
/// disabled (a matching port makes the old enablement ambiguous, and
/// disabling is the safer default); otherwise the snapshot is restored
/// verbatim. Without a snapshot, a `current` that is enabled is simply
/// disabled; with neither, nothing is restored.
pub open spec fn spec_reset_action(st: SysoptView) -> Option<ProxySettingView> {
    match st.previous {
        Some(p) => if st.current is Some && p.port == st.current->Some_0.port && p.is_enabled {
            Some(
                ProxySettingView {
                    is_enabled: false,
                    host: p.host,
                    port: p.port,
                    bypass: p.bypass,
                },
            )
        } else {
            Some(p)
        },
        None => match st.current {
            Some(c) => if c.is_enabled {
                Some(
                    ProxySettingView {
                        is_enabled: false,
                        host: c.host,
                        port: c.port,
                        bypass: c.bypass,
                    },
                )
            } else {
                None
            },
            None => None,
        },
    }
}

/// The `reset` transition: restores per `spec_reset_action` and empties the
/// remembered settings.
pub open spec fn spec_reset(st: SysoptView) -> (SysoptView, Option<ProxySettingView>) {
    (
        SysoptView {
            previous: None,
            current: None,
            guard_running: st.guard_running,
            bypass: st.bypass,
        },
        spec_reset_action(st),
    )
}

/// The guard-arming transition: starts the loop only if none is running.
pub open spec fn spec_guard_start(st: SysoptView) -> (SysoptView, bool) {
    if st.guard_running {
        (st, false)
    } else {
        (
            SysoptView {
                previous: st.previous,
                current: st.current,
                guard_running: true,
                bypass: st.bypass,
            },
            true,
        )
    }
}

/// One wake-up of the guard loop: seeing the feature disabled, it pushes
/// nothing and exits the loop; while enabled with a complete port binding,
/// it re-asserts the desired setting.
pub open spec fn spec_guard_tick(st: SysoptView, enabled: bool, ports: Option<PortConfig>) -> (
    SysoptView,
    Option<ProxySettingView>,
) {
    if !enabled {
        (
            SysoptView {
                previous: st.previous,
                current: st.current,
                guard_running: false,
                bypass: st.bypass,
            },
            None,
        )
    } else {
        match spec_port_error(ports) {
            Some(e) => (st, None),
            None => {
                let desired = spec_desired(st.bypass, ports->Some_0.http_port->Some_0);
                (
                    SysoptView {
                        previous: st.previous,
                        current: Some(desired),
                        guard_running: st.guard_running,
                        bypass: st.bypass,
                    },
                    Some(desired),
                )
            },
        }
    }
}

/// One call the manager has issued against the OS proxy capability: a push
/// of one setting into one protocol slot, or a clear of the configuration.
pub ghost enum OsCall {
    Push(ProxyProtocol, ProxySettingView),
    Unset,
}

/// The full three-slot application for a complete port binding: HTTP and
/// HTTPS through the HTTP port, SOCKS through the SOCKS port, each enabled,
/// on the loopback host, with the platform's bypass list.
pub open spec fn spec_push_all(bypass: Seq<char>, http_port: u16, socks_port: u16) -> Seq<OsCall> {
    seq![
        OsCall::Push(
            ProxyProtocol::Http,
            ProxySettingView { is_enabled: true, host: "127.0.0.1"@, port: http_port, bypass },
        ),
        OsCall::Push(
            ProxyProtocol::Https,
            ProxySettingView { is_enabled: true, host: "127.0.0.1"@, port: http_port, bypass },
        ),
        OsCall::Push(
            ProxyProtocol::Socks,
            ProxySettingView { is_enabled: true, host: "127.0.0.1"@, port: socks_port, bypass },
        ),
    ]
}

/// What an applying operation pushes: the three-slot application while the
/// feature is enabled and the port binding complete, nothing otherwise.
pub open spec fn spec_pushes_for(bypass: Seq<char>, enabled: bool, ports: Option<PortConfig>) -> Seq<OsCall> {
    if enabled && spec_port_error(ports) is None {
        spec_push_all(
            bypass,
            ports->Some_0.http_port->Some_0,
            ports->Some_0.socks_port->Some_0,
        )
    } else {
        Seq::empty()
    }
}

/// What `reset` issues for a given restore action: a push of an enabled
/// setting into the HTTP slot, a clear for a disabled one, nothing when
/// there is nothing to restore.
pub open spec fn spec_reset_calls(action: Option<ProxySettingView>) -> Seq<OsCall> {
    match action {
        Some(s) => if s.is_enabled {
            seq![OsCall::Push(ProxyProtocol::Http, s)]
        } else {
            seq![OsCall::Unset]
        },
        None => Seq::empty(),
    }
}

impl Sysopt {
    /// A fresh manager: nothing remembered, no guard loop, with the
    /// platform's bypass list (resolved once at startup by the embedding
    /// program).
    pub fn new(bypass: String) -> (r: Sysopt)
        ensures
            r@.previous is None,
            r@.current is None,
            !r@.guard_running,
            r@.bypass == bypass@,
            r.os_calls@ == Seq::<OsCall>::empty(),
    {
        Sysopt {
            previous: None,
            current: None,
            guard_running: false,
            bypass,
            os_calls: Ghost(Seq::empty()),
        }
    }

    /// The desired setting for the given HTTP port.
    fn desired_setting(&self, port: u16) -> (r: ProxySetting)
        ensures
            r@ == spec_desired(self@.bypass, port),
    {
        ProxySetting {
            is_enabled: true,
            host: String::from_str("127.0.0.1"),
            port,
            bypass: self.bypass.clone(),
        }
    }

    /// Applies the full three-slot push for a complete port binding and
    /// logs it: HTTP and HTTPS through the HTTP port, SOCKS through the
    /// SOCKS port.
    fn push_all(&mut self, http_port: u16, socks_port: u16)
        ensures
            final(self)@ == old(self)@,
            final(self).previous == old(self).previous,
            final(self).current == old(self).current,
            final(self).os_calls@ == old(self).os_calls@ + spec_push_all(
                old(self)@.bypass,
                http_port,
                socks_port,
            ),
    {
        os_set_proxy(true, "127.0.0.1", http_port, self.bypass.as_str(), &ProxyProtocol::Http);
        os_set_proxy(true, "127.0.0.1", http_port, self.bypass.as_str(), &ProxyProtocol::Https);
        os_set_proxy(true, "127.0.0.1", socks_port, self.bypass.as_str(), &ProxyProtocol::Socks);
        proof {
            self.os_calls@ = self.os_calls@ + spec_push_all(self@.bypass, http_port, socks_port);
        }
    }

    /// Applies OS proxy settings from the discovered port binding, and
    /// records what was pushed. Fails, changing nothing, exactly when the
    /// binding or one of its ports was never discovered.
    pub fn able_proxy(&mut self, config: &IConfig) -> (r: Result<(), SysError>)
        ensures
            match spec_port_error(config.port_config) {
                Some(e) => r == Err::<(), SysError>(e) && final(self)@ == old(self)@,
                None => r is Ok && final(self)@ == (SysoptView {
                    previous: old(self)@.previous,
                    current: Some(
                        spec_desired(
                            old(self)@.bypass,
                            config.port_config->Some_0.http_port->Some_0,
                        ),
                    ),
                    guard_running: old(self)@.guard_running,
                    bypass: old(self)@.bypass,
                }),
            },
            final(self).os_calls@ =~= old(self).os_calls@ + spec_pushes_for(
                old(self)@.bypass,
                true,
                config.port_config,
            ),
    {
        let ports = config.port_config();
        let pc = match ports {
            Some(pc) => pc,
            None => {
                return Err(SysError::MissingPortConfig);
            },
        };
        let http_port = match pc.http_port {
            Some(p) => p,
            None => {
                return Err(SysError::MissingHttpPort);
            },
        };
        let socks_port = match pc.socks_port {
            Some(p) => p,
            None => {
                return Err(SysError::MissingSocksPort);
            },
        };
        self.push_all(http_port, socks_port);
        let desired = self.desired_setting(http_port);
        self.current = Some(desired);
        Ok(())
    }

    /// Clears the OS proxy settings and forgets what was pushed.
    pub fn disable_proxy(&mut self) -> (r: Result<(), SysError>)
        ensures
            r is Ok,
            final(self)@ == (SysoptView {
                previous: old(self)@.previous,
                current: None,
                guard_running: old(self)@.guard_running,
                bypass: old(self)@.bypass,
            }),
            final(self).os_calls@ =~= old(self).os_calls@ + seq![OsCall::Unset],
    {
        os_unset_proxy();
        proof {
            self.os_calls@ = self.os_calls@ + seq![OsCall::Unset];
        }
        self.current = None;
        Ok(())
    }

    /// Mirrors the store's enable flag into the OS: applies the proxy while
    /// the feature is on, clears it while off. Fails exactly when the
    /// feature is on but the port binding is incomplete.
    pub fn sync_proxy(&mut self, config: &IConfig) -> (r: Result<(), SysError>)
        ensures
            r is Ok <==> (!config.sys_port_enable || spec_port_error(config.port_config) is None),
            config.sys_port_enable && spec_port_error(config.port_config) is None
                ==> final(self)@.current == Some(
                spec_desired(old(self)@.bypass, config.port_config->Some_0.http_port->Some_0),
            ),
            !config.sys_port_enable ==> final(self)@.current is None,
            final(self)@.previous == old(self)@.previous,
            final(self)@.guard_running == old(self)@.guard_running,
            final(self)@.bypass == old(self)@.bypass,
            !(r is Ok) ==> final(self)@ == old(self)@,
            final(self).os_calls@ =~= old(self).os_calls@ + (if config.sys_port_enable {
                spec_pushes_for(old(self)@.bypass, true, config.port_config)
            } else {
                seq![OsCall::Unset]
            }),
    {
        if config.sys_port_enable() {
            self.able_proxy(config)
        } else {
            self.disable_proxy()
        }
    }

    /// First application of the desired settings: captures the observed OS
    /// setting as the restore point (at most once), then pushes. A no-op
    /// while the feature is disabled; fails, changing nothing, when the
    /// port binding is incomplete.
    pub fn init(
        &mut self,
        enabled: bool,
        ports: Option<PortConfig>,
        observed: Option<ProxySetting>,
    ) -> (r: Result<(), SysError>)
        ensures
            final(self)@ == spec_init(old(self)@, enabled, ports, observed.deep_view()).0,
            match spec_init(old(self)@, enabled, ports, observed.deep_view()).2 {
                Some(e) => r == Err::<(), SysError>(e),
                None => r is Ok,
            },
            final(self).os_calls@ =~= old(self).os_calls@ + spec_pushes_for(
                old(self)@.bypass,
                enabled,
                ports,
            ),
    {
        if !enabled {
            return Ok(());
        }
        let pc = match ports {
            Some(pc) => pc,
            None => {
                return Err(SysError::MissingPortConfig);
            },
        };
        let http_port = match pc.http_port {
            Some(p) => p,
            None => {
                return Err(SysError::MissingHttpPort);
            },
        };
        let socks_port = match pc.socks_port {
            Some(p) => p,
            None => {
                return Err(SysError::MissingSocksPort);
            },
        };
        if self.previous.is_none() {
            self.previous = observed;
        }
        self.push_all(http_port, socks_port);
        let desired = self.desired_setting(http_port);
        self.current = Some(desired);
        Ok(())
    }

    /// Refreshes the live OS setting with the latest values, keeping the
    /// original restore point; called before any `init`, it degrades to
    /// `init` itself.
    pub fn update(
        &mut self,
        enabled: bool,
        ports: Option<PortConfig>,
        observed: Option<ProxySetting>,
    ) -> (r: Result<(), SysError>)
        ensures
            final(self)@ == spec_update(old(self)@, enabled, ports, observed.deep_view()).0,
            match spec_update(old(self)@, enabled, ports, observed.deep_view()).2 {
                Some(e) => r == Err::<(), SysError>(e),
                None => r is Ok,
            },
            final(self).os_calls@ =~= old(self).os_calls@ + spec_pushes_for(
                old(self)@.bypass,
                enabled,
                ports,
            ),
    {
        if self.previous.is_none() && self.current.is_none() {
            return self.init(enabled, ports, observed);
        }
        if !enabled {
            return Ok(());
        }
        let pc = match ports {
            Some(pc) => pc,
            None => {
                return Err(SysError::MissingPortConfig);
            },
        };
        let http_port = match pc.http_port {
            Some(p) => p,
            None => {
                return Err(SysError::MissingHttpPort);
            },
        };
        let socks_port = match pc.socks_port {
            Some(p) => p,
            None => {
                return Err(SysError::MissingSocksPort);
            },
        };
        self.push_all(http_port, socks_port);
        let desired = self.desired_setting(http_port);
        self.current = Some(desired);
        Ok(())
    }

    /// `init` driven by the machine itself: reads the enable flag and port
    /// binding from the store and the restore point from the OS. What the OS
    /// reports is outside this library's control, so the contract holds for
    /// every snapshot it may hand back.
    pub fn init_from_os(&mut self, config: &IConfig) -> (r: Result<(), SysError>)
        ensures
            exists|obs: Option<ProxySettingView>|
                {
                    let step = #[trigger] spec_init(
                        old(self)@,
                        config.sys_port_enable,
                        config.port_config,
                        obs,
                    );
                    final(self)@ == step.0 && (match step.2 {
                        Some(e) => r == Err::<(), SysError>(e),
                        None => r is Ok,
                    })
                },
            final(self).os_calls@ =~= old(self).os_calls@ + spec_pushes_for(
                old(self)@.bypass,
                config.sys_port_enable,
                config.port_config,
            ),
    {
        let observed = os_get_proxy();
        let ghost obs: Option<ProxySettingView> = Some(observed@);
        let r = self.init(config.sys_port_enable(), config.port_config(), Some(observed));
        proof {
            let step = spec_init(old(self)@, config.sys_port_enable, config.port_config, obs);
            assert(self@ == step.0);
        }
        r
    }

    /// `update` driven by the machine itself, on the same terms as
    /// `init_from_os`.
    pub fn update_from_os(&mut self, config: &IConfig) -> (r: Result<(), SysError>)
        ensures
            exists|obs: Option<ProxySettingView>|
                {
                    let step = #[trigger] spec_update(
                        old(self)@,
                        config.sys_port_enable,
                        config.port_config,
                        obs,
                    );
                    final(self)@ == step.0 && (match step.2 {
                        Some(e) => r == Err::<(), SysError>(e),
                        None => r is Ok,
                    })
                },
            final(self).os_calls@ =~= old(self).os_calls@ + spec_pushes_for(
                old(self)@.bypass,
                config.sys_port_enable,
                config.port_config,
            ),
    {
        let observed = os_get_proxy();
        let ghost obs: Option<ProxySettingView> = Some(observed@);
        let r = self.update(config.sys_port_enable(), config.port_config(), Some(observed));
        proof {
            let step = spec_update(old(self)@, config.sys_port_enable, config.port_config, obs);
            assert(self@ == step.0);
        }
        r
    }

    /// Restores the OS to the remembered setting per `spec_reset_action`
    /// and empties the remembered state; with nothing remembered it is a
    /// no-op. Returns the setting that was restored, if any.
    pub fn reset(&mut self) -> (r: Option<ProxySetting>)
        ensures
            final(self)@ == spec_reset(old(self)@).0,
            r.deep_view() == spec_reset(old(self)@).1,
            final(self).os_calls@ =~= old(self).os_calls@ + spec_reset_calls(
                spec_reset(old(self)@).1,
            ),
    {
        let action: Option<ProxySetting> = match &self.previous {
            Some(p) => {
                let port_matches = match &self.current {
                    Some(c) => p.port == c.port,
                    None => false,
                };
                if port_matches && p.is_enabled {
                    Some(
                        ProxySetting {
                            is_enabled: false,
                            host: p.host.clone(),
                            port: p.port,
                            bypass: p.bypass.clone(),
                        },
                    )
                } else {
                    Some(
                        ProxySetting {
                            is_enabled: p.is_enabled,
                            host: p.host.clone(),
                            port: p.port,
                            bypass: p.bypass.clone(),
                        },
                    )
                }
            },
            None => match &self.current {
                Some(c) => if c.is_enabled {
                    Some(
                        ProxySetting {
                            is_enabled: false,
                            host: c.host.clone(),
                            port: c.port,
                            bypass: c.bypass.clone(),
                        },
                    )
                } else {
                    None
                },
                None => None,
            },
        };
        match &action {
            Some(setting) => {
                if setting.is_enabled {
                    os_set_proxy(
                        true,
                        setting.host.as_str(),
                        setting.port,
                        setting.bypass.as_str(),
                        &ProxyProtocol::Http,
                    );
                    proof {
                        self.os_calls@ = self.os_calls@ + seq![
                            OsCall::Push(ProxyProtocol::Http, setting@),
                        ];
                    }
                } else {
                    os_unset_proxy();
                    proof {
                        self.os_calls@ = self.os_calls@ + seq![OsCall::Unset];
                    }
                }
            },
            None => {},
        }
        self.previous = None;
        self.current = None;
        action
    }

    /// Arms the guard loop; a second arming while one loop is alive is
    /// refused, so at most one loop runs at a time.
    pub fn guard_start(&mut self) -> (r: bool)
        ensures
            (final(self)@, r) == spec_guard_start(old(self)@),
            final(self).os_calls@ == old(self).os_calls@,
    {
        if self.guard_running {
            false
        } else {
            self.guard_running = true;
            true
        }
    }

    /// One wake-up of the guard loop: re-asserts the desired OS setting
    /// while the feature stays enabled, and exits the loop (pushing
    /// nothing) the first time it sees the feature disabled. Returns
    /// whether the loop should keep running.
    pub fn guard_tick(&mut self, enabled: bool, ports: Option<PortConfig>) -> (r: bool)
        ensures
            final(self)@ == spec_guard_tick(old(self)@, enabled, ports).0,
            r == final(self)@.guard_running,
            final(self).os_calls@ =~= old(self).os_calls@ + spec_pushes_for(
                old(self)@.bypass,
                enabled,
                ports,
            ),
    {
        if !enabled {
            self.guard_running = false;
            return false;
        }
        let pc = match ports {
            Some(pc) => pc,
            None => {
                return self.guard_running;
            },
        };
        let http_port = match pc.http_port {
            Some(p) => p,
            None => {
                return self.guard_running;
            },
        };
        let socks_port = match pc.socks_port {
            Some(p) => p,
            None => {
                return self.guard_running;
            },
        };
        self.push_all(http_port, socks_port);
        let desired = self.desired_setting(http_port);
        self.current = Some(desired);
        self.guard_running
    }
}

// ------------------------------------------------------------------
// Laws.
// ------------------------------------------------------------------

/// After `init` on a fresh state captured snapshot `o`, a `reset` with no
/// intervening `update` restores exactly `o` — force-disabled when `o` was
/// enabled on the same port the program then applied, verbatim otherwise.
pub proof fn lemma_reset_restores_init_snapshot(
    st: SysoptView,
    ports: Option<PortConfig>,
    o: ProxySettingView,
)
    requires
        st.previous is None,
        st.current is None,
        spec_port_error(ports) is None,
    ensures
        ({
            let st1 = spec_init(st, true, ports, Some(o)).0;
            let restored = spec_reset(st1).1;
            &&& st1.previous == Some(o)
            &&& restored == Some(
                if o.port == ports->Some_0.http_port->Some_0 && o.is_enabled {
                    ProxySettingView {
                        is_enabled: false,
                        host: o.host,
                        port: o.port,
                        bypass: o.bypass,
                    }
                } else {
                    o
                },
            )
            &&& spec_reset(st1).0.previous is None
            &&& spec_reset(st1).0.current is None
        }),
{
}

/// `update` called before any `init` degrades to `init`: on a fresh state
/// the two transitions agree exactly, state, action and error alike.
pub proof fn lemma_update_before_init_degrades(
    st: SysoptView,
    enabled: bool,
    ports: Option<PortConfig>,
    observed: Option<ProxySettingView>,
)
    requires
        st.previous is None,
        st.current is None,
    ensures
        spec_update(st, enabled, ports, observed) == spec_init(st, enabled, ports, observed),
{
}

/// A guard wake-up that sees the feature disabled pushes nothing and stops
/// the loop; so once the flag is off, no tick pushes again, and the one
/// wake-up already in flight is the only push that can still happen.
pub proof fn lemma_guard_disable_stops_pushes(st: SysoptView, ports: Option<PortConfig>)
    ensures
        spec_guard_tick(st, false, ports).1 is None,
        !spec_guard_tick(st, false, ports).0.guard_running,
        spec_guard_tick(spec_guard_tick(st, false, ports).0, false, ports).1 is None,
{
}

/// Arming the guard twice yields one running loop: the second arming is
/// refused and changes nothing.
pub proof fn lemma_guard_not_reentrant(st: SysoptView)
    ensures
        spec_guard_start(spec_guard_start(st).0).1 == false,
        spec_guard_start(spec_guard_start(st).0).0 == spec_guard_start(st).0,
{
}

// ------------------------------------------------------------------
// Trusted wrappers around the OS proxy capability.
// ------------------------------------------------------------------

/// Relies on rustem_proxy::SystemProxy::set: pushes one proxy setting into
/// the operating system's configuration for the given protocol slot. Its
/// whole effect is on the OS; nothing is promised of it here. The callee
/// aborts the process when the platform tool or registry call fails; that
/// is purely environmental, no input avoids it, so the library's no-panic
/// guarantee does not extend through this call.
#[verifier::external_body]
fn os_set_proxy(is_enabled: bool, host: &str, port: u16, bypass: &str, protocol: &ProxyProtocol) {
    let p = match protocol {
        ProxyProtocol::Http => rustem_proxy::Protocol::HTTP,
        ProxyProtocol::Https => rustem_proxy::Protocol::HTTPS,
        ProxyProtocol::Socks => rustem_proxy::Protocol::SOCKS,
    };
    rustem_proxy::SystemProxy::set(rustem_proxy::SystemProxy {
        is_enabled,
        host: host.to_string(),
        port,
        bypass: bypass.to_string(),
        protocol: p,
    });
}

/// Relies on rustem_proxy::SystemProxy::unset: clears the operating
/// system's proxy configuration. Its whole effect is on the OS. Like the
/// push, the callee aborts the process on an environmental failure of the
/// platform tool; no input avoids it.
#[verifier::external_body]
fn os_unset_proxy() {
    rustem_proxy::SystemProxy::unset();
}

/// Relies on rustem_proxy::SystemProxy::get. In the version built here the
/// callee reads a real setting only on Windows, from the registry, and
/// aborts the process when the stored proxy address is absent or does not
/// parse; on Linux and macOS it is a stub that returns a fixed placeholder
/// setting. Nothing is promised of the result, and every caller's contract
/// holds for whatever comes back; embedding programs that need a faithful
/// restore point on the stub platforms should treat this observation as
/// absent.
#[verifier::external_body]
pub fn os_get_proxy() -> (r: ProxySetting)
{
    let p = rustem_proxy::SystemProxy::get();
    ProxySetting { is_enabled: p.is_enabled, host: p.host, port: p.port, bypass: p.bypass }
}

} // verus!
