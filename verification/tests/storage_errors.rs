use aei_framework::application::memory::{
    AddMemoryEntryCommand, AddMemoryEntryError, AddMemoryEntryHandler, PruneMemoryCommand,
    PruneMemoryError, PruneMemoryHandler,
};
use aei_framework::{
    Activation, AddRandomNeuronCommand, AddRandomNeuronError, AddRandomNeuronHandler,
    AddRandomSynapseCommand, AddRandomSynapseError, AddRandomSynapseHandler, Command,
    CommandHandler, CuriosityScope, Event, EventStore, MemoryEvent, MemoryEventStore,
    MutateNeuronActivationError, MutateRandomNeuronActivationCommand,
    MutateRandomNeuronActivationHandler, MutateRandomSynapseWeightCommand,
    MutateRandomSynapseWeightError, MutateRandomSynapseWeightHandler, NeuronAdded,
    RecalculateCuriosityScoreCommand, RecalculateCuriosityScoreHandler, RemoveRandomNeuronCommand,
    RemoveRandomNeuronError, RemoveRandomNeuronHandler, RemoveRandomSynapseCommand,
    RemoveRandomSynapseError, RemoveRandomSynapseHandler, SetSynapseWeightCommand,
    SetSynapseWeightError, SetSynapseWeightHandler,
};
use rand::SeedableRng;
use rand_chacha::ChaCha8Rng;

/// A store that accepts a given number of appends and then refuses.
struct Limited {
    events: Vec<Event>,
    left: usize,
}

impl EventStore for Limited {
    type Error = &'static str;

    fn append(&mut self, event: &Event) -> Result<(), Self::Error> {
        if self.left == 0 {
            return Err("full");
        }
        self.left -= 1;
        self.events.push(*event);
        Ok(())
    }

    fn load(&mut self) -> Result<Vec<Event>, Self::Error> {
        Ok(self.events.clone())
    }
}

/// A store that cannot be read.
struct Unreadable;

impl EventStore for Unreadable {
    type Error = &'static str;

    fn append(&mut self, _event: &Event) -> Result<(), Self::Error> {
        Ok(())
    }

    fn load(&mut self) -> Result<Vec<Event>, Self::Error> {
        Err("corrupt")
    }
}

struct LimitedMemory {
    events: Vec<MemoryEvent>,
    left: usize,
}

impl MemoryEventStore for LimitedMemory {
    type Error = ();

    fn append(&mut self, event: &MemoryEvent) -> Result<(), ()> {
        if self.left == 0 {
            return Err(());
        }
        self.left -= 1;
        self.events.push(event.clone());
        Ok(())
    }

    fn load(&mut self) -> Result<Vec<MemoryEvent>, ()> {
        Ok(self.events.clone())
    }
}

fn neuron(id: u128) -> Event {
    Event::NeuronAdded(NeuronAdded { neuron_id: id, activation: Activation::Identity })
}

fn rng() -> ChaCha8Rng {
    ChaCha8Rng::seed_from_u64(17)
}

#[test]
fn unreadable_store_aborts_construction() {
    assert_eq!(CommandHandler::new(Unreadable).err(), Some("corrupt"));
    assert_eq!(SetSynapseWeightHandler::new(Unreadable).err(), Some("corrupt"));
    assert_eq!(RecalculateCuriosityScoreHandler::new(Unreadable).err(), Some("corrupt"));
    assert_eq!(AddRandomNeuronHandler::new(Unreadable, rng()).err(), Some("corrupt"));
    assert_eq!(AddRandomSynapseHandler::new(Unreadable, rng()).err(), Some("corrupt"));
    assert_eq!(RemoveRandomNeuronHandler::new(Unreadable, rng()).err(), Some("corrupt"));
    assert_eq!(RemoveRandomSynapseHandler::new(Unreadable, rng()).err(), Some("corrupt"));
    assert_eq!(MutateRandomNeuronActivationHandler::new(Unreadable, rng()).err(), Some("corrupt"));
    assert_eq!(MutateRandomSynapseWeightHandler::new(Unreadable, rng()).err(), Some("corrupt"));
}

#[test]
fn refused_event_is_not_applied() {
    let store = Limited { events: vec![neuron(1), neuron(2)], left: 0 };
    let mut handler = CommandHandler::new(store).unwrap();
    assert_eq!(handler.handle(Command::RemoveNeuron { id: 1 }), Err("full"));
    assert_eq!(handler.network.neurons.len(), 2);

    let store = Limited { events: vec![neuron(1), neuron(2)], left: 0 };
    let mut handler = AddRandomSynapseHandler::new(store, rng()).unwrap();
    assert_eq!(handler.handle(AddRandomSynapseCommand), Err(AddRandomSynapseError::StorageError));
    assert!(handler.base.network.synapses.is_empty());

    let store = Limited { events: vec![neuron(1), neuron(2)], left: 0 };
    let mut handler = RemoveRandomNeuronHandler::new(store, rng()).unwrap();
    assert_eq!(handler.handle(RemoveRandomNeuronCommand), Err(RemoveRandomNeuronError::StorageError));
    assert_eq!(handler.base.network.neurons.len(), 2);

    let store = Limited { events: vec![neuron(1)], left: 0 };
    let mut handler = MutateRandomNeuronActivationHandler::new(store, rng()).unwrap();
    assert_eq!(
        handler.handle(MutateRandomNeuronActivationCommand { exclude_io: false }),
        Err(MutateNeuronActivationError::StorageError)
    );
    assert_eq!(handler.base.network.neurons[&1].activation, Activation::Identity);

    let with_synapse =
        || vec![neuron(1), neuron(2), Event::SynapseCreated { id: 3, from: 1, to: 2, weight: 8 }];
    let store = Limited { events: with_synapse(), left: 0 };
    let mut handler = MutateRandomSynapseWeightHandler::new(store, rng()).unwrap();
    assert_eq!(
        handler.handle(MutateRandomSynapseWeightCommand { std_dev: 1 }, 4),
        Err(MutateRandomSynapseWeightError::StorageError)
    );
    assert_eq!(handler.base.network.synapses[&3].weight, 8);

    let store = Limited { events: with_synapse(), left: 0 };
    let mut handler = RemoveRandomSynapseHandler::new(store, rng()).unwrap();
    assert_eq!(
        handler.handle(RemoveRandomSynapseCommand),
        Err(RemoveRandomSynapseError::StorageError)
    );
    assert_eq!(handler.base.network.synapses.len(), 1);

    let store = Limited { events: with_synapse(), left: 0 };
    let mut handler = SetSynapseWeightHandler::new(store).unwrap();
    assert_eq!(
        handler.handle(SetSynapseWeightCommand { synapse_id: 3, new_weight: 1 }),
        Err(SetSynapseWeightError::StorageError)
    );
    assert_eq!(handler.network.synapses[&3].weight, 8);
}

#[test]
fn random_neuron_keeps_what_was_persisted_before_the_failure() {
    let store = Limited { events: vec![neuron(1), neuron(2), neuron(3)], left: 1 };
    let mut handler = AddRandomNeuronHandler::new(store, rng()).unwrap();
    assert_eq!(handler.handle(AddRandomNeuronCommand), Err(AddRandomNeuronError::StorageError));
    assert_eq!(handler.base.network.neurons.len(), 4);
    assert!(handler.base.network.synapses.is_empty());
    assert_eq!(handler.base.store.events.len(), 4);

    let store = Limited { events: vec![neuron(1)], left: 0 };
    let mut handler = AddRandomNeuronHandler::new(store, rng()).unwrap();
    assert_eq!(handler.handle(AddRandomNeuronCommand), Err(AddRandomNeuronError::StorageError));
    assert_eq!(handler.base.network.neurons.len(), 1);
}

#[test]
fn recalculation_stops_at_the_first_refusal() {
    let store = Limited { events: vec![neuron(1), neuron(2)], left: 1 };
    let mut handler = RecalculateCuriosityScoreHandler::new(store).unwrap();
    let res = handler.handle(RecalculateCuriosityScoreCommand {
        target_ids: vec![1, 2],
        scope: CuriosityScope::Neuron,
    });
    assert_eq!(res, Err("full"));
    assert_eq!(handler.network.neurons[&1].curiosity_score, 500_000_000);
    assert_eq!(handler.network.neurons[&2].curiosity_score, 0);
    assert_eq!(handler.store.events.len(), 3);
}

#[test]
fn memory_stays_above_capacity_when_pruning_cannot_be_persisted() {
    let command = |score: u64| AddMemoryEntryCommand {
        event_type: "t".into(),
        payload: serde_json::Value::Null,
        score,
    };
    let store = LimitedMemory { events: Vec::new(), left: 2 };
    let mut handler = AddMemoryEntryHandler::new(store, 1).unwrap();
    assert!(handler.handle(command(5)).is_ok());
    assert_eq!(handler.handle(command(6)), Err(AddMemoryEntryError::StorageError));
    assert_eq!(handler.base.memory.entries.len(), 2);
    assert_eq!(handler.handle(command(7)), Err(AddMemoryEntryError::StorageError));
    assert_eq!(handler.base.memory.entries.len(), 2);
    assert_eq!(handler.base.store.events.len(), 2);

    let mut prune = PruneMemoryHandler::new(handler.base.store, 1).unwrap();
    assert_eq!(prune.handle(PruneMemoryCommand), Err(PruneMemoryError::StorageError));
    assert_eq!(prune.base.memory.entries.len(), 2);
}
