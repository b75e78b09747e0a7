use vstd::prelude::*;

use crate::asteroid::{
    asteroid_bundle, spawn_asteroid, AsteroidDraw, AsteroidPlugin, SpawnTimer, SPAWN_TIME_MILLIS,
};
use crate::collision_detection::{
    apply_collision_damage, collision_detection, damage_spec, detect_spec, events_for,
    handle_collisions, CollisionDetectionPlugin,
};
use crate::despawn::{
    dead_ids, despawn_dead_entities, despawn_far_away_components, far_away_ids, DespawnPlugin,
};
use crate::movement::{accelerated, apply_acceleration, apply_velocity, moved, MovementPlugin};
use crate::schedule::{InGameSet, SchedulePlugin};
use crate::spaceship::{
    has_craft, shield_requests, single_craft, spaceship_bundle, spaceship_destroyed,
    spaceship_movement_controls, spaceship_shield_controls, spaceship_weapon_controls,
    spawn_spaceship, steer_spec, steering_spec, weapon_spawns, Controls, SpaceshipPlugin, Steering,
    MISSILE_RADIUS,
};
use crate::state::{
    game_state_input_events, pause_toggle, transition_to_in_game, GameState, StatePlugin,
};
use crate::world::{
    apply_spec, bundles_ok, lemma_apply_spawns_only, record_of, spawn_all_spec, spawn_spec, Bundle, Collider, Commands,
    Entity, EntityRecord, Role, World, WorldView, MAX_RADIUS,
};

verus! {

/// Which subsystems have been installed into an app.
#[derive(Clone, Copy, Debug, PartialEq, Eq, Structural)]
pub struct Plugins {
    pub schedule: bool,
    pub state: bool,
    pub movement: bool,
    pub collision_detection: bool,
    pub despawn: bool,
    pub spaceship: bool,
    pub asteroid: bool,
}

/// The simulation: the entity store and the per-frame context that the
/// systems share (current and pending state, spawn timer, installed plugins).
pub struct App {
    pub world: World,
    pub state: GameState,
    pub next_state: Option<GameState>,
    pub spawn_timer: SpawnTimer,
    pub plugins: Plugins,
    pub started: bool,
}

pub struct AppView {
    pub world: WorldView,
    pub state: GameState,
    pub next_state: Option<GameState>,
    pub spawn_timer: SpawnTimer,
    pub plugins: Plugins,
    pub started: bool,
}

impl View for App {
    type V = AppView;

    open spec fn view(&self) -> AppView {
        AppView {
            world: self.world@,
            state: self.state,
            next_state: self.next_state,
            spawn_timer: self.spawn_timer,
            plugins: self.plugins,
            started: self.started,
        }
    }
}

impl AppView {
    pub open spec fn wf(self) -> bool {
        &&& self.world.wf()
        &&& self.spawn_timer.wf()
        &&& !self.started ==> self.state == GameState::InGame && self.next_state is None
    }
}

/// First frame only: the craft is spawned once at startup.
pub open spec fn startup_spec(a: AppView) -> AppView {
    if a.started {
        a
    } else {
        AppView {
            started: true,
            world: if a.plugins.spaceship {
                spawn_spec(a.world, spaceship_bundle())
            } else {
                a.world
            },
            ..a
        }
    }
}

/// A pending state is entered; entering `GameOver` spawns a fresh craft.
pub open spec fn transition_spec(a: AppView) -> AppView {
    if !a.plugins.state {
        a
    } else {
        match a.next_state {
            Some(s) => if s != a.state {
                AppView {
                    state: s,
                    next_state: None,
                    world: if s == GameState::GameOver && a.plugins.spaceship {
                        spawn_spec(a.world, spaceship_bundle())
                    } else {
                        a.world
                    },
                    ..a
                }
            } else {
                AppView { next_state: None, ..a }
            },
            None => a,
        }
    }
}

/// The pause toggle, and the automatic request to leave `GameOver`.
pub open spec fn state_systems_spec(a: AppView, c: Controls) -> AppView {
    if !a.plugins.state {
        a
    } else {
        let n1 = match pause_toggle(a.state, c.pause_just_pressed) {
            Some(s) => Some(s),
            None => a.next_state,
        };
        let n2 = if a.state == GameState::GameOver {
            Some(GameState::InGame)
        } else {
            n1
        };
        AppView { next_state: n2, ..a }
    }
}

/// The gameplay phases run only in `InGame` once the schedule gates them.
pub open spec fn gameplay_runs(a: AppView) -> bool {
    !a.plugins.schedule || a.state == GameState::InGame
}

pub open spec fn detection_phase(a: AppView) -> AppView {
    if a.plugins.collision_detection {
        AppView { world: detect_spec(a.world), ..a }
    } else {
        a
    }
}

/// The removal requests of the despawn phase, in the order they are queued.
pub open spec fn despawn_requests(es: Seq<EntityRecord>) -> Seq<Entity> {
    Seq::empty() + far_away_ids(es, Role::Asteroid, es.len() as int) + far_away_ids(
        es,
        Role::SpaceshipMissile,
        es.len() as int,
    ) + dead_ids(es, es.len() as int)
}

pub open spec fn despawn_phase(a: AppView) -> AppView {
    if a.plugins.despawn {
        AppView {
            world: apply_spec(
                a.world,
                Seq::empty(),
                despawn_requests(a.world.entities),
                Seq::empty(),
            ),
            ..a
        }
    } else {
        a
    }
}

/// The input phase: craft controls, then the asteroid spawner; the queued
/// spawns and tags are applied at its end.
pub open spec fn input_phase(a: AppView, c: Controls, dt: int, d: AsteroidDraw) -> (
    AppView,
    Steering,
) {
    let w1 = if a.plugins.spaceship {
        WorldView { entities: steer_spec(a.world.entities, c), ..a.world }
    } else {
        a.world
    };
    let steer = if a.plugins.spaceship && single_craft(a.world.entities) is Some {
        steering_spec(c, dt)
    } else {
        Steering { yaw: 0, roll: 0 }
    };
    let sp1 = if a.plugins.spaceship {
        weapon_spawns(w1.entities, c, Seq::empty())
    } else {
        Seq::empty()
    };
    let sh = if a.plugins.spaceship {
        shield_requests(w1.entities, c, Seq::empty())
    } else {
        Seq::empty()
    };
    let fired = a.plugins.asteroid && a.spawn_timer.tick_spec(dt).1;
    let sp2 = if fired {
        sp1.push(asteroid_bundle(d))
    } else {
        sp1
    };
    let timer = if a.plugins.asteroid {
        a.spawn_timer.tick_spec(dt).0
    } else {
        a.spawn_timer
    };
    (AppView { world: apply_spec(w1, sp2, Seq::empty(), sh), spawn_timer: timer, ..a }, steer)
}

/// The update phase: collision notices and damage, then motion, then the
/// check for a lost craft.
pub open spec fn updates_phase(a: AppView, dt: int) -> AppView {
    let w = a.world;
    let w1 = if a.plugins.collision_detection {
        let e1 = events_for(w, Role::Asteroid);
        let e2 = events_for(w, Role::Spaceship);
        let e3 = events_for(w, Role::SpaceshipMissile);
        WorldView {
            entities: damage_spec(damage_spec(damage_spec(w.entities, e1), e2), e3),
            ..w
        }
    } else {
        w
    };
    let w2 = if a.plugins.movement {
        WorldView {
            entities: w1.entities.map_values(|e: EntityRecord| accelerated(e, dt)).map_values(
                |e: EntityRecord| moved(e, dt),
            ),
            ..w1
        }
    } else {
        w1
    };
    let next = if a.plugins.spaceship && !has_craft(w2.entities) {
        Some(GameState::GameOver)
    } else {
        a.next_state
    };
    AppView { world: w2, next_state: next, ..a }
}

/// One gameplay phase.
pub open spec fn phase_spec(a: AppView, set: InGameSet, c: Controls, dt: int, d: AsteroidDraw) -> (
    AppView,
    Steering,
) {
    match set {
        InGameSet::CollisionDetection => (detection_phase(a), Steering { yaw: 0, roll: 0 }),
        InGameSet::DespawnEntities => (despawn_phase(a), Steering { yaw: 0, roll: 0 }),
        InGameSet::UserInput => input_phase(a, c, dt, d),
        InGameSet::EntityUpdates => (updates_phase(a, dt), Steering { yaw: 0, roll: 0 }),
    }
}

/// One whole frame: startup, state transition, state systems, then, when
/// gameplay runs, detection, despawn, input and updates in that order.
pub open spec fn frame_spec(a: AppView, c: Controls, dt: int, d: AsteroidDraw) -> (
    AppView,
    Steering,
) {
    let a3 = state_systems_spec(transition_spec(startup_spec(a)), c);
    if gameplay_runs(a3) {
        let (a6, s) = input_phase(despawn_phase(detection_phase(a3)), c, dt, d);
        (updates_phase(a6, dt), s)
    } else {
        (a3, Steering { yaw: 0, roll: 0 })
    }
}

pub open spec fn app_new_spec() -> Plugins {
    Plugins {
        schedule: false,
        state: false,
        movement: false,
        collision_detection: false,
        despawn: false,
        spaceship: false,
        asteroid: false,
    }
}

impl App {
    /// An empty app with no plugin installed, in `InGame`.
    pub fn new() -> (r: App)
        ensures
            r@.wf(),
            r@.world.entities.len() == 0,
            r@.world.next_index == 0,
            r@.state == GameState::InGame,
            r@.next_state is None,
            r@.plugins == app_new_spec(),
            r@.spawn_timer == (SpawnTimer { duration_ms: SPAWN_TIME_MILLIS, elapsed_ms: 0 }),
            !r@.started,
    {
        App {
            world: World::new(),
            state: GameState::InGame,
            next_state: None,
            spawn_timer: SpawnTimer::from_millis(SPAWN_TIME_MILLIS),
            plugins: Plugins {
                schedule: false,
                state: false,
                movement: false,
                collision_detection: false,
                despawn: false,
                spaceship: false,
                asteroid: false,
            },
            started: false,
        }
    }

    /// The whole game: every gameplay plugin installed.
    pub fn game() -> (r: App)
        ensures
            r@.wf(),
            r@.world.entities.len() == 0,
            r@.world.next_index == 0,
            r@.state == GameState::InGame,
            r@.next_state is None,
            r@.plugins == (Plugins {
                schedule: true,
                state: true,
                movement: true,
                collision_detection: true,
                despawn: true,
                spaceship: true,
                asteroid: true,
            }),
            r@.spawn_timer == (SpawnTimer { duration_ms: SPAWN_TIME_MILLIS, elapsed_ms: 0 }),
            !r@.started,
    {
        let mut app = App::new();
        SchedulePlugin.build(&mut app);
        DespawnPlugin.build(&mut app);
        StatePlugin.build(&mut app);
        MovementPlugin.build(&mut app);
        CollisionDetectionPlugin.build(&mut app);
        SpaceshipPlugin.build(&mut app);
        AsteroidPlugin.build(&mut app);
        app
    }

    fn run_startup(&mut self)
        requires
            old(self)@.wf(),
        ensures
            final(self)@ == startup_spec(old(self)@),
            final(self)@.wf(),
    {
        if !self.started {
            self.started = true;
            if self.plugins.spaceship {
                spawn_craft_now(&mut self.world);
            }
        }
    }

    fn run_transition(&mut self)
        requires
            old(self)@.wf(),
            old(self).started,
        ensures
            final(self)@ == transition_spec(old(self)@),
            final(self)@.wf(),
    {
        if self.plugins.state {
            match self.next_state {
                Some(s) => {
                    self.next_state = None;
                    if s != self.state {
                        self.state = s;
                        if s == GameState::GameOver && self.plugins.spaceship {
                            spawn_craft_now(&mut self.world);
                        }
                    }
                },
                None => {},
            }
        }
    }

    fn run_state_systems(&mut self, controls: &Controls)
        requires
            old(self)@.wf(),
            old(self).started,
        ensures
            final(self)@ == state_systems_spec(old(self)@, *controls),
            final(self)@.wf(),
    {
        if self.plugins.state {
            game_state_input_events(&mut self.next_state, self.state, controls.pause_just_pressed);
            if self.state == GameState::GameOver {
                transition_to_in_game(&mut self.next_state);
            }
        }
    }

    fn run_detection(&mut self)
        requires
            old(self)@.wf(),
            old(self).started,
        ensures
            final(self)@ == detection_phase(old(self)@),
            final(self)@.wf(),
    {
        if self.plugins.collision_detection {
            collision_detection(&mut self.world);
        }
    }

    fn run_despawn(&mut self)
        requires
            old(self)@.wf(),
            old(self).started,
        ensures
            final(self)@ == despawn_phase(old(self)@),
            final(self)@.wf(),
    {
        if self.plugins.despawn {
            let mut cmds = Commands::new();
            despawn_far_away_components(&self.world, Role::Asteroid, &mut cmds);
            despawn_far_away_components(&self.world, Role::SpaceshipMissile, &mut cmds);
            despawn_dead_entities(&self.world, &mut cmds);
            assert(cmds.despawns@ =~= despawn_requests(self.world@.entities));
            assert(cmds.spawns@ =~= Seq::<Bundle>::empty());
            assert(cmds.shields@ =~= Seq::<Entity>::empty());
            self.world.apply(&cmds);
        }
    }

    fn run_input(&mut self, controls: &Controls, dt_ms: u32, draw: &AsteroidDraw) -> (s: Steering)
        requires
            old(self)@.wf(),
            old(self).started,
            draw.in_range(),
        ensures
            (final(self)@, s) == input_phase(old(self)@, *controls, dt_ms as int, *draw),
            final(self)@.wf(),
    {
        let mut cmds = Commands::new();
        assert(cmds.spawns@ =~= Seq::<Bundle>::empty());
        assert(cmds.shields@ =~= Seq::<Entity>::empty());
        let mut steer = Steering { yaw: 0, roll: 0 };
        if self.plugins.spaceship {
            steer = spaceship_movement_controls(&mut self.world, controls, dt_ms);
            spaceship_weapon_controls(&self.world, controls, &mut cmds);
            spaceship_shield_controls(&self.world, controls, &mut cmds);
        }
        assert(cmds.despawns@ =~= Seq::<Entity>::empty());
        let ghost sp1 = cmds.spawns@;
        assert(sp1.len() <= 1 && (sp1.len() == 1 ==> sp1[0].collider == Some(
            Collider { radius: MISSILE_RADIUS },
        )));
        if self.plugins.asteroid {
            spawn_asteroid(&mut self.spawn_timer, dt_ms, draw, &mut cmds);
        }
        assert(cmds.spawns@.len() <= 2);
        assert(bundles_ok(cmds.spawns@)) by {
            assert forall|k: int| 0 <= k < cmds.spawns@.len() && (#[trigger] cmds.spawns@[k]).collider is Some
                implies 0 < cmds.spawns@[k].collider->0.radius <= MAX_RADIUS by {
                if k < sp1.len() {
                    assert(cmds.spawns@[k] == sp1[k]);
                }
            }
        }
        self.world.apply(&cmds);
        steer
    }

    fn run_updates(&mut self, dt_ms: u32)
        requires
            old(self)@.wf(),
            old(self).started,
        ensures
            final(self)@ == updates_phase(old(self)@, dt_ms as int),
            final(self)@.wf(),
    {
        if self.plugins.collision_detection {
            let e1 = handle_collisions(&self.world, Role::Asteroid);
            let e2 = handle_collisions(&self.world, Role::Spaceship);
            let e3 = handle_collisions(&self.world, Role::SpaceshipMissile);
            apply_collision_damage(&mut self.world, &e1);
            apply_collision_damage(&mut self.world, &e2);
            apply_collision_damage(&mut self.world, &e3);
        }
        if self.plugins.movement {
            apply_acceleration(&mut self.world, dt_ms);
            apply_velocity(&mut self.world, dt_ms);
        }
        if self.plugins.spaceship {
            spaceship_destroyed(&self.world, &mut self.next_state);
        }
    }

    fn run_phase(&mut self, set: InGameSet, controls: &Controls, dt_ms: u32, draw: &AsteroidDraw) -> (s:
        Steering)
        requires
            old(self)@.wf(),
            old(self).started,
            draw.in_range(),
        ensures
            (final(self)@, s) == phase_spec(old(self)@, set, *controls, dt_ms as int, *draw),
            final(self)@.wf(),
            final(self).started,
    {
        match set {
            InGameSet::CollisionDetection => {
                self.run_detection();
                Steering { yaw: 0, roll: 0 }
            },
            InGameSet::DespawnEntities => {
                self.run_despawn();
                Steering { yaw: 0, roll: 0 }
            },
            InGameSet::UserInput => self.run_input(controls, dt_ms, draw),
            InGameSet::EntityUpdates => {
                self.run_updates(dt_ms);
                Steering { yaw: 0, roll: 0 }
            },
        }
    }

    /// Runs one frame of `dt_ms` milliseconds with the given controls; the
    /// asteroid spawner, if its timer finishes, uses `draw`. Returns the turn
    /// and roll that the craft asked for, which the caller applies to its heading.
    pub fn update_with(&mut self, controls: &Controls, dt_ms: u32, draw: &AsteroidDraw) -> (s: Steering)
        requires
            old(self)@.wf(),
            draw.in_range(),
        ensures
            (final(self)@, s) == frame_spec(old(self)@, *controls, dt_ms as int, *draw),
            final(self)@.wf(),
    {
        self.run_startup();
        self.run_transition();
        self.run_state_systems(controls);
        if !self.plugins.schedule || self.state == GameState::InGame {
            self.run_phase(InGameSet::CollisionDetection, controls, dt_ms, draw);
            self.run_phase(InGameSet::DespawnEntities, controls, dt_ms, draw);
            let s = self.run_phase(InGameSet::UserInput, controls, dt_ms, draw);
            self.run_phase(InGameSet::EntityUpdates, controls, dt_ms, draw);
            s
        } else {
            Steering { yaw: 0, roll: 0 }
        }
    }

    /// Runs one frame, drawing the asteroid spawner's random numbers first.
    pub fn update(&mut self, controls: &Controls, dt_ms: u32) -> (s: Steering)
        requires
            old(self)@.wf(),
        ensures
            exists|d: AsteroidDraw|
                d.in_range() && (final(self)@, s) == frame_spec(old(self)@, *controls, dt_ms as int, d),
            final(self)@.wf(),
    {
        let draw = AsteroidDraw::random();
        self.update_with(controls, dt_ms, &draw)
    }
}

/// State gating: while paused, with nothing pending and the schedule
/// installed, a frame changes no entity (nothing moves, spawns or goes), and
/// without a pause edge it changes nothing at all, so the game stays frozen
/// frame after frame.
pub proof fn paused_is_frozen(a: AppView, c: Controls, dt: int, d: AsteroidDraw)
    requires
        a.wf(),
        a.plugins.schedule,
        a.state == GameState::Paused,
        a.next_state is None,
    ensures
        frame_spec(a, c, dt, d).0.world == a.world,
        frame_spec(a, c, dt, d).0.state == GameState::Paused,
        !c.pause_just_pressed ==> frame_spec(a, c, dt, d).0 == a,
{
}

/// The bounce out of `GameOver`: the frame that enters `GameOver` spawns a
/// new craft and asks for `InGame`, and the next frame enters `InGame` with
/// that craft in place.
pub proof fn game_over_bounce(
    a: AppView,
    c1: Controls,
    dt1: int,
    d1: AsteroidDraw,
    c2: Controls,
    dt2: int,
    d2: AsteroidDraw,
)
    requires
        a.wf(),
        a.plugins.state,
        a.plugins.spaceship,
        a.plugins.schedule,
        a.state != GameState::GameOver,
        a.next_state == Some(GameState::GameOver),
        a.world.next_index < u64::MAX,
    ensures
        ({
            let b = frame_spec(a, c1, dt1, d1).0;
            let entered = transition_spec(startup_spec(b));
            &&& b.state == GameState::GameOver
            &&& b.next_state == Some(GameState::InGame)
            &&& b.world.entities == a.world.entities.push(
                record_of(Entity { index: a.world.next_index as u64 }, spaceship_bundle()),
            )
            &&& has_craft(b.world.entities)
            &&& entered.state == GameState::InGame
            &&& entered.world == b.world
            &&& frame_spec(b, c2, dt2, d2).0.state == GameState::InGame
        }),
{
    let b = frame_spec(a, c1, dt1, d1).0;
    let n = a.world.entities.len() as int;
    assert(b.world.entities[n].role == Role::Spaceship);
}

/// Spawns a fresh craft at once.
fn spawn_craft_now(world: &mut World)
    requires
        old(world)@.wf(),
    ensures
        final(world)@ == spawn_spec(old(world)@, spaceship_bundle()),
        final(world)@.wf(),
{
    let mut cmds = Commands::new();
    spawn_spaceship(&mut cmds);
    assert(cmds.spawns@ =~= seq![spaceship_bundle()]);
    world.apply(&cmds);
    proof {
        lemma_apply_spawns_only(old(world)@, cmds.spawns@, cmds.despawns@, cmds.shields@);
        assert(cmds.spawns@.drop_last() =~= Seq::<Bundle>::empty());
        assert(cmds.spawns@.last() == spaceship_bundle());
        assert(spawn_all_spec(old(world)@, Seq::<Bundle>::empty()) == old(world)@);
    }
}

} // verus!
